//! What holds of the screens as a whole.

use vstd::prelude::*;

use crate::layout::{
    ends_within, inside, left_over, ratatui_can_give, tui_can_give, Direction, Limit,
};
use crate::menu::{menu_laid_out, menu_of, menu_split, MenuAreas, NO_ROOM_MENU_HEIGHT};
use crate::renderer::{
    base_screen, base_split, bracketed, laid_out, overlay_screen, overlay_split, run_colour,
    run_label, screen_of, tips, Focus, ScreenAreas, ScreenContents, NO_ROOM_HEIGHT,
};
use crate::screen::{line_models, terminal, Area, Colour, WidgetModel, SELECTION_COLOUR};
use crate::static_selection::{StaticSelection, PANES};

verus! {

/// Whether a widget's border is that of the selected pane.
pub open spec fn stands_out(widget: WidgetModel) -> bool {
    widget.panel matches Some(panel) && panel.border == SELECTION_COLOUR
}

/// On the screen of a search the border of the selected pane stands out, and no other: that of
/// the roots, of the search terms, or of the results. The tips, the run control and a box never
/// do.
pub proof fn law_selected_pane_stands_out(
    selection: StaticSelection,
    contents: ScreenContents,
    areas: ScreenAreas,
    i: int,
)
    requires
        0 <= i < screen_of(selection, contents, areas).len(),
    ensures
        stands_out(screen_of(selection, contents, areas)[i]) <==> {
            ||| i == 1 && selection.pane_selected == 0
            ||| i == 2 && selection.pane_selected == 1
            ||| i == 4 && selection.pane_selected == 2
        },
{
    let base = base_screen(selection, contents, areas);
    if i < base.len() {
        assert(screen_of(selection, contents, areas)[i] == base[i]);
    }
}

/// On the screen of the menu the border of the selected pane stands out, and no other.
pub proof fn law_selected_menu_pane_stands_out(
    selection: StaticSelection,
    areas: MenuAreas,
    i: int,
)
    requires
        0 <= i < menu_of(selection, areas).len(),
    ensures
        menu_of(selection, areas).len() == PANES,
        stands_out(menu_of(selection, areas)[i]) <==> i == selection.pane_selected,
{
}

/// A box is shown if and only if the keyboard acts on something other than the screen itself. It
/// is drawn last, over everything else, which it does not change.
pub proof fn law_box_lies_over_the_screen(
    selection: StaticSelection,
    contents: ScreenContents,
    areas: ScreenAreas,
)
    requires
        areas.overlay is Some == !(contents.focus is Main),
    ensures
        screen_of(selection, contents, areas).len() == base_screen(selection, contents, areas).len()
            + if contents.focus is Main {
            0int
        } else {
            1int
        },
        screen_of(selection, contents, areas).take(
            base_screen(selection, contents, areas).len() as int,
        ) == base_screen(selection, contents, areas),
        !(contents.focus is Main) ==> screen_of(selection, contents, areas).last().area
            == areas.overlay->0,
{
    assert(screen_of(selection, contents, areas).take(
        base_screen(selection, contents, areas).len() as int,
    ) =~= base_screen(selection, contents, areas));
}

/// Where the parts of the screen stand. The tips are at the top, over the whole width, and below
/// them is a margin of one cell. Inside it the roots begin at the left, the results end at the
/// right, and both reach from top to bottom; between them are the search terms, at the top, and
/// the run control, at the bottom, equally wide. What is below the tips has at most a hundred
/// rows.
pub proof fn law_parts_fill_the_screen(
    width: u16,
    height: u16,
    overlay: bool,
    areas: ScreenAreas,
)
    requires
        laid_out(width, height, overlay, areas),
        width >= 2,
        height > NO_ROOM_HEIGHT,
    ensures
        ({
            let below = left_over(height, 1, 100);
            let top = height - below + 1;
            let bottom = height - 1;
            &&& areas.tips == Area { x: 0, y: 0, width, height: (height - below) as u16 }
            &&& areas.roots.x == 1 && areas.roots.y == top
            &&& areas.roots.y + areas.roots.height == bottom
            &&& areas.results.x + areas.results.width == width - 1 && areas.results.y == top
            &&& areas.results.y + areas.results.height == bottom
            &&& areas.search_terms.y == top
            &&& areas.controls.y + areas.controls.height == bottom
            &&& areas.search_terms.x == areas.controls.x
            &&& areas.search_terms.width == areas.controls.width
        }),
{
    let (rows, columns, middle) = choose|rows: Seq<Area>, columns: Seq<Area>, middle: Seq<Area>|
        #[trigger] base_split(width, height, areas, rows, columns, middle);
    assert(ends_within(rows[0], terminal(width, height)));
    assert(ends_within(rows[1], terminal(width, height)));
    assert(ends_within(columns[0], inside(rows[1], 1)));
    assert(ends_within(columns[1], inside(rows[1], 1)));
    assert(ends_within(columns[2], inside(rows[1], 1)));
    assert(ends_within(middle[0], inside(columns[1], 0)));
    assert(ends_within(middle[1], inside(columns[1], 0)));
}

/// What is below the tips gets all rows but one of a terminal of up to a hundred and one, and a
/// hundred of a higher one.
pub proof fn law_rows_below_the_tips(height: u16)
    ensures
        height == 0 ==> left_over(height, 1, 100) == 0,
        1 <= height <= 101 ==> left_over(height, 1, 100) == height - 1,
        height > 101 ==> left_over(height, 1, 100) == 100,
{
}

/// Where the panes of the menu stand: inside a margin of one cell, the first begins at the left,
/// the last ends at the right, and all reach from top to bottom.
pub proof fn law_panes_fill_the_menu(width: u16, height: u16, areas: MenuAreas)
    requires
        menu_laid_out(width, height, areas),
        width >= 2,
        height > NO_ROOM_MENU_HEIGHT,
    ensures
        areas.selection.x == 1,
        areas.results.x + areas.results.width == width - 1,
        areas.selection.y == 1 && areas.controls.y == 1 && areas.results.y == 1,
        areas.selection.height == height - 2,
        areas.controls.height == height - 2,
        areas.results.height == height - 2,
{
    let columns = choose|columns: Seq<Area>| #[trigger]
        menu_split(width, height, areas, columns);
    assert(ends_within(columns[0], inside(terminal(width, height), 1)));
    assert(ends_within(columns[1], inside(terminal(width, height), 1)));
    assert(ends_within(columns[2], inside(terminal(width, height), 1)));
}

/// The search terms look as they do in a selected pane if and only if theirs is selected.
pub proof fn law_search_terms_show_their_pane(
    selection: StaticSelection,
    contents: ScreenContents,
    areas: ScreenAreas,
)
    ensures
        screen_of(selection, contents, areas)[2].lines == if selection.pane_selected == 1 {
            line_models(contents.search_terms.selected@)
        } else {
            line_models(contents.search_terms.unselected@)
        },
{
    assert(screen_of(selection, contents, areas)[2] == base_screen(selection, contents, areas)[2]);
}

/// The run control's name and its colour each tell whether a search runs and, where one does,
/// whether it is being stopped.
pub proof fn law_run_control_tells_the_state(
    running: bool,
    disabled: bool,
    other_running: bool,
    other_disabled: bool,
)
    ensures
        ({
            let same = running == other_running && (running ==> disabled == other_disabled);
            &&& run_label(running, disabled) == run_label(other_running, other_disabled) <==> same
            &&& run_colour(running, disabled) == run_colour(other_running, other_disabled) <==> same
        }),
{
    reveal_strlit("Start");
    reveal_strlit("Stop");
    reveal_strlit("Stopping");
    assert("Start"@.len() == 5 && "Stop"@.len() == 4 && "Stopping"@.len() == 8);
}

// ---- What stands on the screens ----

/// The tips in one line, as they are shown.
pub proof fn law_tips_in_one_line()
    ensures
        bracketed(tips())
            == "[H for the Help menu] [Arrow keys for navigation] [Enter to select/toggle] [Page up/down for first/last element] [F5 Start/Stop] "@,
{
    reveal_strlit("H for the Help menu");
    reveal_strlit("Arrow keys for navigation");
    reveal_strlit("Enter to select/toggle");
    reveal_strlit("Page up/down for first/last element");
    reveal_strlit("F5 Start/Stop");
    reveal_strlit("[");
    reveal_strlit("] ");
    reveal_strlit(
        "[H for the Help menu] [Arrow keys for navigation] [Enter to select/toggle] [Page up/down for first/last element] [F5 Start/Stop] ",
    );
    reveal_with_fuel(bracketed, 6);
    let all = tips();
    assert(all.drop_last() =~= all.take(4));
    assert(all.take(4).drop_last() =~= all.take(3));
    assert(all.take(3).drop_last() =~= all.take(2));
    assert(all.take(2).drop_last() =~= all.take(1));
    assert(all.take(1).drop_last() =~= all.take(0));
    assert(bracketed(tips())
        =~= "[H for the Help menu] [Arrow keys for navigation] [Enter to select/toggle] [Page up/down for first/last element] [F5 Start/Stop] "@);
}

/// The parts of the screen that are always there, in the order in which they are drawn, with their
/// places, titles, borders and lines: the tips without a frame, the roots, the search terms, the
/// run control, and the results, line for line as they were handed in.
pub proof fn law_screen_shows_its_parts(
    selection: StaticSelection,
    contents: ScreenContents,
    areas: ScreenAreas,
)
    ensures
        ({
            let parts = screen_of(selection, contents, areas);
            let framed = |i: int, area: Area, title: Seq<char>, selected: bool, wrap: bool|
                {
                    &&& parts[i].area == area
                    &&& parts[i].wrap == wrap
                    &&& parts[i].panel is Some
                    &&& parts[i].panel->0.title == title
                    &&& parts[i].panel->0.background is None
                    &&& selected ==> parts[i].panel->0.border == Colour::LightMagenta
                    &&& !selected ==> parts[i].panel->0.border == Colour::White
                };
            &&& parts.len() >= 5
            &&& parts[0].area == areas.tips && parts[0].panel is None && parts[0].wrap
            &&& parts[0].lines.len() == 1 && parts[0].lines[0].colour is None
            &&& parts[0].lines[0].text == bracketed(tips())
            &&& framed(1, areas.roots, "Root Selection"@, selection.pane_selected == 0, false)
            &&& parts[1].lines == selection.root_lines()
            &&& framed(2, areas.search_terms, "Search Terms"@, selection.pane_selected == 1, true)
            &&& framed(3, areas.controls, "Controls"@, false, true)
            &&& parts[3].lines.len() == 1
            &&& framed(4, areas.results, "Results"@, selection.pane_selected == 2, false)
            &&& parts[4].lines.len() == contents.results@.len()
            &&& forall|k: int|
                0 <= k < contents.results@.len() ==> {
                    &&& (#[trigger] parts[4].lines[k]).text == contents.results@[k].text@
                    &&& parts[4].lines[k].colour == contents.results@[k].colour
                }
            &&& parts[2].lines.len() == if selection.pane_selected == 1 {
                contents.search_terms.selected@.len()
            } else {
                contents.search_terms.unselected@.len()
            }
        }),
{
    let base = base_screen(selection, contents, areas);
    let parts = screen_of(selection, contents, areas);
    assert(parts[0] == base[0]);
    assert(parts[1] == base[1]);
    assert(parts[2] == base[2]);
    assert(parts[3] == base[3]);
    assert(parts[4] == base[4]);
}

/// The run control is called `Start` in white while no search runs, `Stop` in green while one does,
/// and `Stopping` in red while it is being stopped.
pub proof fn law_run_control_is_named(
    selection: StaticSelection,
    contents: ScreenContents,
    areas: ScreenAreas,
)
    ensures
        ({
            let line = screen_of(selection, contents, areas)[3].lines[0];
            &&& !contents.running ==> line.text == "Start"@ && line.colour == Some(Colour::White)
            &&& contents.running && !contents.run_control_disabled ==> line.text == "Stop"@
                && line.colour == Some(Colour::Green)
            &&& contents.running && contents.run_control_disabled ==> line.text == "Stopping"@
                && line.colour == Some(Colour::Red)
        }),
{
    assert(screen_of(selection, contents, areas)[3] == base_screen(selection, contents, areas)[3]);
}

/// The box over the screen: its place, its title and its lines by what the keyboard acts on, on
/// dark gray. While the keyboard acts on the screen itself there is none.
pub proof fn law_box_says_what_is_asked(
    selection: StaticSelection,
    contents: ScreenContents,
    areas: ScreenAreas,
    place: Area,
)
    requires
        areas.overlay == Some(place),
    ensures
        ({
            let parts = screen_of(selection, contents, areas);
            let top = parts[5];
            &&& contents.focus is Main ==> parts.len() == 5
            &&& !(contents.focus is Main) ==> {
                &&& parts.len() == 6
                &&& top.area == place && !top.wrap
                &&& top.panel is Some
                &&& top.panel->0.border == Colour::White
                &&& top.panel->0.background == Some(Colour::DarkGray)
            }
            &&& contents.focus is ConfirmClose ==> {
                &&& top.panel->0.title == "Confirm Close"@
                &&& top.lines.len() == 1 && top.lines[0].colour is None
                &&& top.lines[0].text == "Y/N"@
            }
            &&& contents.focus is Help ==> {
                &&& top.panel->0.title == "Help/Controls"@
                &&& top.lines.len() == 1 && top.lines[0].colour is None
                &&& top.lines[0].text == "Placeholder"@
            }
            &&& contents.focus matches Focus::SearchMod(lines) ==> {
                &&& top.panel->0.title == "Search Modify"@
                &&& top.lines.len() == lines@.len()
                &&& forall|k: int|
                    0 <= k < lines@.len() ==> {
                        &&& (#[trigger] top.lines[k]).text == lines@[k].text@
                        &&& top.lines[k].colour == lines@[k].colour
                    }
            }
        }),
{
    let parts = screen_of(selection, contents, areas);
    let over = overlay_screen(contents.focus, place);
    assert(parts =~= base_screen(selection, contents, areas) + over);
    if !(contents.focus is Main) {
        assert(parts[5] == over[0]);
    }
}

/// The panes of the menu, in the order in which they are drawn, with their places, titles, borders
/// and lines.
pub proof fn law_menu_shows_its_panes(selection: StaticSelection, areas: MenuAreas)
    ensures
        ({
            let panes = menu_of(selection, areas);
            let framed = |i: int, area: Area, title: Seq<char>, wrap: bool|
                {
                    &&& panes[i].area == area
                    &&& panes[i].wrap == wrap
                    &&& panes[i].panel is Some
                    &&& panes[i].panel->0.title == title
                    &&& panes[i].panel->0.background is None
                    &&& selection.pane_selected == i ==> panes[i].panel->0.border
                        == Colour::LightMagenta
                    &&& selection.pane_selected != i ==> panes[i].panel->0.border == Colour::White
                };
            &&& panes.len() == 3
            &&& framed(0, areas.selection, "Selection"@, false)
            &&& panes[0].lines == selection.root_lines()
            &&& framed(1, areas.controls, "Controls"@, true)
            &&& panes[1].lines.len() == 3
            &&& panes[1].lines[0].text == "Start"@
            &&& panes[1].lines[1].text == "Stop"@
            &&& panes[1].lines[2].text == "Pause"@
            &&& forall|k: int|
                0 <= k < 3 ==> (#[trigger] panes[1].lines[k]).colour == Some(Colour::White)
            &&& framed(2, areas.results, "Results"@, false)
            &&& panes[2].lines.len() == 1 && panes[2].lines[0].colour is None
            &&& panes[2].lines[0].text == "Results will be shown here."@
        }),
{
}

/// How the terminal is split for the screen of a search: into one row of tips and at most a hundred
/// below them; of these, inside a margin of one cell, into columns of twenty, twenty and sixty
/// hundredths; of the second column into ninety-two and eight hundredths.
pub proof fn law_screen_is_split_so(
    width: u16,
    height: u16,
    overlay: bool,
    areas: ScreenAreas,
) -> (split: (Seq<Area>, Seq<Area>, Seq<Area>))
    requires
        laid_out(width, height, overlay, areas),
    ensures
        ratatui_can_give(
            Direction::Vertical,
            0,
            seq![Limit::Length(1), Limit::Max(100)],
            Area { x: 0, y: 0, width, height },
            split.0,
        ),
        ratatui_can_give(
            Direction::Horizontal,
            1,
            seq![Limit::Percentage(20), Limit::Percentage(20), Limit::Percentage(60)],
            split.0[1],
            split.1,
        ),
        ratatui_can_give(
            Direction::Vertical,
            0,
            seq![Limit::Percentage(92), Limit::Percentage(8)],
            split.1[1],
            split.2,
        ),
        areas.tips == split.0[0],
        areas.roots == split.1[0],
        areas.search_terms == split.2[0],
        areas.controls == split.2[1],
        areas.results == split.1[2],
        areas.overlay is Some == overlay,
{
    choose|rows: Seq<Area>, columns: Seq<Area>, middle: Seq<Area>| #[trigger]
        base_split(width, height, areas, rows, columns, middle)
}

/// A box has the middle third, both ways, of the whole terminal.
pub proof fn law_box_is_in_the_middle(
    width: u16,
    height: u16,
    areas: ScreenAreas,
) -> (split: (Seq<Area>, Seq<Area>))
    requires
        laid_out(width, height, true, areas),
    ensures
        ratatui_can_give(
            Direction::Vertical,
            0,
            seq![Limit::Ratio(1, 3), Limit::Ratio(1, 3), Limit::Ratio(1, 3)],
            Area { x: 0, y: 0, width, height },
            split.0,
        ),
        ratatui_can_give(
            Direction::Horizontal,
            0,
            seq![Limit::Ratio(1, 3), Limit::Ratio(1, 3), Limit::Ratio(1, 3)],
            split.0[1],
            split.1,
        ),
        areas.overlay == Some(split.1[1]),
{
    choose|rows: Seq<Area>, columns: Seq<Area>| #[trigger]
        overlay_split(width, height, areas.overlay->0, rows, columns)
}

/// How the terminal is split for the menu: inside a margin of one cell, into columns of twenty,
/// twenty and sixty hundredths.
pub proof fn law_menu_is_split_so(
    width: u16,
    height: u16,
    areas: MenuAreas,
) -> (columns: Seq<Area>)
    requires
        menu_laid_out(width, height, areas),
    ensures
        tui_can_give(
            Direction::Horizontal,
            1,
            seq![Limit::Percentage(20), Limit::Percentage(20), Limit::Percentage(60)],
            Area { x: 0, y: 0, width, height },
            columns,
        ),
        areas.selection == columns[0],
        areas.controls == columns[1],
        areas.results == columns[2],
{
    choose|columns: Seq<Area>| #[trigger] menu_split(width, height, areas, columns)
}

} // verus!
