use registry_search::menu::{
    compose_menu, lay_out_menu, menu_screen, MenuAreas, MAX_MENU_WIDTH, NO_ROOM_MENU_HEIGHT,
};
use registry_search::renderer::{
    compose, lay_out, renderer, Focus, ScreenAreas, ScreenContents, TermLines, MAX_WIDTH,
    NO_ROOM_HEIGHT,
};
use registry_search::screen::{Area, Colour, StyledLine, Widget, SELECTION_COLOUR};
use registry_search::static_selection::StaticSelection;

fn area(x: u16, y: u16, width: u16, height: u16) -> Area {
    Area { x, y, width, height }
}

fn menu_at(pane: u8) -> StaticSelection {
    StaticSelection { pane_selected: pane, ..StaticSelection::default() }
}

fn line(text: &str, colour: Option<Colour>) -> StyledLine {
    StyledLine { text: text.to_string(), colour }
}

fn contents(focus: Focus) -> ScreenContents {
    ScreenContents {
        running: false,
        run_control_disabled: false,
        search_terms: TermLines {
            selected: vec![line("zip", Some(Colour::Cyan))],
            unselected: vec![line("zip", Some(Colour::White))],
        },
        results: vec![line("found", None), line("again", None)],
        focus,
    }
}

fn areas(overlay: Option<Area>) -> ScreenAreas {
    ScreenAreas {
        tips: area(0, 0, 80, 1),
        roots: area(1, 2, 15, 20),
        search_terms: area(16, 2, 15, 18),
        controls: area(16, 20, 15, 2),
        results: area(31, 2, 48, 20),
        overlay,
    }
}

fn texts(widget: &Widget) -> Vec<&str> {
    widget.lines.iter().map(|line| line.text.as_str()).collect()
}

fn title(widget: &Widget) -> &str {
    widget.panel.as_ref().unwrap().title.as_str()
}

fn borders(widgets: &[Widget]) -> Vec<Option<Colour>> {
    widgets.iter().map(|widget| widget.panel.as_ref().map(|panel| panel.border)).collect()
}

#[test]
fn the_screen_shows_its_parts_in_order() {
    let widgets = compose(&menu_at(0), contents(Focus::Main), &areas(None));
    assert_eq!(widgets.len(), 5);
    assert_eq!(
        texts(&widgets[0]),
        vec![
            "[H for the Help menu] [Arrow keys for navigation] [Enter to select/toggle] \
             [Page up/down for first/last element] [F5 Start/Stop] "
        ]
    );
    assert_eq!(widgets[0].panel, None);
    let titles: Vec<&str> = widgets[1..].iter().map(title).collect();
    assert_eq!(titles, vec!["Root Selection", "Search Terms", "Controls", "Results"]);
    assert_eq!(widgets[1].lines, menu_at(0).generate_root_list());
    assert_eq!(texts(&widgets[2]), vec!["zip"]);
    assert_eq!(widgets[3].lines, vec![line("Start", Some(Colour::White))]);
    assert_eq!(texts(&widgets[4]), vec!["found", "again"]);
    let wraps: Vec<bool> = widgets.iter().map(|widget| widget.wrap).collect();
    assert_eq!(wraps, vec![true, false, true, true, false]);
    let places: Vec<Area> = widgets.iter().map(|widget| widget.area).collect();
    let expected = areas(None);
    assert_eq!(
        places,
        vec![
            expected.tips,
            expected.roots,
            expected.search_terms,
            expected.controls,
            expected.results
        ]
    );
}

#[test]
fn the_selected_pane_stands_out() {
    let white = Some(Colour::White);
    let bright = Some(SELECTION_COLOUR);
    let at = |pane: u8| borders(&compose(&menu_at(pane), contents(Focus::Main), &areas(None)));
    assert_eq!(at(0), vec![None, bright, white, white, white]);
    assert_eq!(at(1), vec![None, white, bright, white, white]);
    assert_eq!(at(2), vec![None, white, white, white, bright]);
    assert_eq!(at(3), vec![None, white, white, white, white]);
}

#[test]
fn the_run_control_tells_the_state() {
    let control = |running: bool, disabled: bool| {
        let contents = ScreenContents {
            running,
            run_control_disabled: disabled,
            ..contents(Focus::Main)
        };
        let mut widgets = compose(&menu_at(0), contents, &areas(None));
        widgets.remove(3).lines.remove(0)
    };
    assert_eq!(control(false, false), line("Start", Some(Colour::White)));
    assert_eq!(control(false, true), line("Start", Some(Colour::White)));
    assert_eq!(control(true, false), line("Stop", Some(Colour::Green)));
    assert_eq!(control(true, true), line("Stopping", Some(Colour::Red)));
}

#[test]
fn a_box_lies_over_the_screen() {
    let middle = area(26, 8, 27, 8);
    let shown = |focus: Focus| {
        let mut widgets = compose(&menu_at(0), contents(focus), &areas(Some(middle)));
        assert_eq!(widgets.len(), 6);
        let top = widgets.pop().unwrap();
        assert_eq!(widgets, compose(&menu_at(0), contents(Focus::Main), &areas(None)));
        let panel = top.panel.as_ref().unwrap();
        assert_eq!(panel.border, Colour::White);
        assert_eq!(panel.background, Some(Colour::DarkGray));
        assert_eq!(top.area, middle);
        assert!(!top.wrap);
        top
    };
    let confirm = shown(Focus::ConfirmClose);
    assert_eq!(title(&confirm), "Confirm Close");
    assert_eq!(confirm.lines, vec![line("Y/N", None)]);
    let help = shown(Focus::Help);
    assert_eq!(title(&help), "Help/Controls");
    assert_eq!(help.lines, vec![line("Placeholder", None)]);
    let editor = shown(Focus::SearchMod(vec![line("zi_", Some(Colour::Cyan))]));
    assert_eq!(title(&editor), "Search Modify");
    assert_eq!(editor.lines, vec![line("zi_", Some(Colour::Cyan))]);
}

#[test]
fn the_screen_is_laid_out_on_the_terminal() {
    let laid = lay_out(102, 33, false);
    assert_eq!(laid.tips, area(0, 0, 102, 1));
    assert_eq!(laid.roots, area(1, 2, 20, 30));
    assert_eq!(laid.search_terms.x, 21);
    assert_eq!(laid.search_terms.width, 20);
    assert_eq!(laid.search_terms.y, 2);
    assert_eq!(laid.controls.x, 21);
    assert_eq!(laid.controls.y + laid.controls.height, 32);
    assert_eq!(laid.results, area(41, 2, 60, 30));
    assert_eq!(laid.overlay, None);
    let laid = lay_out(90, 30, true);
    assert_eq!(laid.overlay, Some(area(30, 10, 30, 10)));
}

#[test]
fn every_size_that_is_allowed_can_be_laid_out() {
    let sizes = [
        (0, 0),
        (1, 1),
        (2, 3),
        (80, 24),
        (80, 800),
        (MAX_WIDTH, 714),
        (MAX_WIDTH, u16::MAX),
        (MAX_WIDTH + 1, NO_ROOM_HEIGHT),
        (u16::MAX, 0),
        (u16::MAX, NO_ROOM_HEIGHT),
    ];
    for (width, height) in sizes {
        let laid = lay_out(width, height, true);
        let parts = [
            laid.tips,
            laid.roots,
            laid.search_terms,
            laid.controls,
            laid.results,
            laid.overlay.unwrap(),
        ];
        for part in parts {
            assert!(part.x + part.width <= width);
            assert!(part.y + part.height <= height);
        }
    }
}

#[test]
fn what_is_below_the_tips_has_at_most_a_hundred_rows() {
    let heights =
        (0..=300).chain((301..2_000).step_by(37)).chain([714, 715, 716, 40_000, u16::MAX]);
    for height in heights {
        let laid = lay_out(80, height, false);
        let below = height.saturating_sub(1).min(100);
        assert_eq!(laid.tips, area(0, 0, 80, height - below));
        if below >= 2 {
            let top = height - below + 1;
            assert_eq!((laid.roots.x, laid.roots.y, laid.roots.height), (1, top, below - 2));
            assert_eq!((laid.results.y, laid.results.height), (top, below - 2));
            assert_eq!(laid.results.x + laid.results.width, 79);
            assert_eq!(laid.search_terms.y, top);
            assert_eq!(laid.controls.y + laid.controls.height, height - 1);
            assert_eq!(laid.search_terms.x, laid.controls.x);
            assert_eq!(laid.search_terms.width, laid.controls.width);
        } else {
            for part in [laid.roots, laid.search_terms, laid.controls, laid.results] {
                assert_eq!(part, area(0, 0, 0, 0));
            }
        }
    }
}

#[test]
fn a_tall_terminal_is_drawn() {
    let widgets = renderer(&menu_at(2), contents(Focus::Help), 80, 800);
    assert_eq!(widgets.len(), 6);
    assert_eq!(widgets[0].area, area(0, 0, 80, 700));
    assert_eq!(widgets[4].area.y, 701);
    assert_eq!(widgets[4].area.height, 98);
    assert_eq!(widgets[3].lines, vec![line("Start", Some(Colour::White))]);
}

#[test]
fn the_search_terms_show_whether_their_pane_is_selected() {
    for pane in 0..4 {
        let menu = menu_at(pane);
        assert_eq!(menu.search_terms_selected(), pane == 1);
        let widgets = compose(&menu, contents(Focus::Main), &areas(None));
        let colour = if pane == 1 { Colour::Cyan } else { Colour::White };
        assert_eq!(widgets[2].lines, vec![line("zip", Some(colour))]);
    }
}

#[test]
fn every_size_that_is_allowed_has_room_for_the_menu() {
    for height in [2, 3, 24, 800, u16::MAX] {
        for width in [2, 80, MAX_MENU_WIDTH] {
            let places = lay_out_menu(width, height);
            assert_eq!(places.selection.x, 1);
            assert_eq!(places.results.x + places.results.width, width - 1);
            for pane in [places.selection, places.controls, places.results] {
                assert_eq!((pane.y, pane.height), (1, height - 2));
            }
        }
    }
    let places = lay_out_menu(u16::MAX, NO_ROOM_MENU_HEIGHT);
    assert_eq!(places.results, area(0, 0, 0, 0));
}

#[test]
fn the_renderer_makes_room_for_a_box_where_one_is_shown() {
    let main = renderer(&menu_at(1), contents(Focus::Main), 102, 33);
    assert_eq!(main.len(), 5);
    assert_eq!(main[4].area, area(41, 2, 60, 30));
    let help = renderer(&menu_at(1), contents(Focus::Help), 90, 30);
    assert_eq!(help.len(), 6);
    assert_eq!(help[5].area, area(30, 10, 30, 10));
    assert_eq!(title(&help[5]), "Help/Controls");
}

#[test]
fn the_menu_shows_its_panes() {
    let places = MenuAreas {
        selection: area(1, 1, 20, 22),
        controls: area(21, 1, 20, 22),
        results: area(41, 1, 60, 22),
    };
    let widgets = compose_menu(&menu_at(1), &places);
    let titles: Vec<&str> = widgets.iter().map(title).collect();
    assert_eq!(titles, vec!["Selection", "Controls", "Results"]);
    assert_eq!(widgets[0].lines, menu_at(1).generate_root_list());
    assert_eq!(
        widgets[1].lines,
        vec![
            line("Start", Some(Colour::White)),
            line("Stop", Some(Colour::White)),
            line("Pause", Some(Colour::White)),
        ]
    );
    assert_eq!(widgets[2].lines, vec![line("Results will be shown here.", None)]);
    let wraps: Vec<bool> = widgets.iter().map(|widget| widget.wrap).collect();
    assert_eq!(wraps, vec![false, true, false]);
    assert_eq!(
        borders(&widgets),
        vec![Some(Colour::White), Some(Colour::LightMagenta), Some(Colour::White)]
    );
}

#[test]
fn the_menu_is_laid_out_on_the_terminal() {
    let places = lay_out_menu(102, 24);
    assert_eq!(places.selection, area(1, 1, 20, 22));
    assert_eq!(places.controls, area(21, 1, 20, 22));
    assert_eq!(places.results, area(41, 1, 60, 22));
    let widgets = menu_screen(&menu_at(2), 102, 24);
    assert_eq!(widgets[2].area, places.results);
    assert_eq!(
        borders(&widgets),
        vec![Some(Colour::White), Some(Colour::White), Some(Colour::LightMagenta)]
    );
}
