use std::time::{Duration, Instant};

use registry_search::clock::time_between;
use registry_search::input::{InputEvent, Key, KeyKind};
use registry_search::roots::Root;
use registry_search::screen::Colour;
use registry_search::static_selection::{StaticSelection, DEBOUNCE_NANOS};
use registry_search::text::pad;

/// The moment at which the menus here were last changed.
const BEGINNING: u128 = 1_000;

/// The first moment at which they can change again.
const SOON_ENOUGH: u128 = BEGINNING + DEBOUNCE_NANOS;

fn menu_at(pane: u8, root: u8) -> StaticSelection {
    StaticSelection {
        pane_selected: pane,
        root_selected: root,
        ..StaticSelection::default_at(StaticSelection::default().clock, BEGINNING)
    }
}

fn press(key: Key) -> InputEvent {
    InputEvent::Key { kind: KeyKind::Press, key }
}

fn pass_time(time: Duration) {
    let start = Instant::now();
    while start.elapsed() < time {}
}

#[test]
fn menu_begins_at_the_first_pane_and_root() {
    let menu = StaticSelection::default();
    assert_eq!(menu.pane_selected, 0);
    assert_eq!(menu.root_selected, 0);
    assert_eq!(menu.control_selected, 0);
    assert_eq!(menu.pane_last_changed, menu.root_selection_last_changed);
    assert_eq!(
        menu.selected_roots.export_roots(),
        vec![Root::HkeyLocalMachine, Root::HkeyUsers]
    );
}

#[test]
fn panes_form_a_ring() {
    let left: Vec<u8> = (0..3)
        .map(|pane| {
            let mut menu = menu_at(pane, 0);
            menu.pane_left_at(SOON_ENOUGH);
            assert_eq!(menu.pane_last_changed, SOON_ENOUGH);
            assert_eq!(menu.root_selection_last_changed, BEGINNING);
            menu.pane_selected
        })
        .collect();
    assert_eq!(left, vec![2, 0, 1]);
    let right: Vec<u8> = (0..3)
        .map(|pane| {
            let mut menu = menu_at(pane, 0);
            menu.pane_right_at(SOON_ENOUGH);
            menu.pane_selected
        })
        .collect();
    assert_eq!(right, vec![1, 2, 0]);
}

#[test]
fn roots_form_a_ring() {
    let up: Vec<u8> = (0..5)
        .map(|root| {
            let mut menu = menu_at(0, root);
            menu.root_up_at(SOON_ENOUGH);
            assert_eq!(menu.root_selection_last_changed, SOON_ENOUGH);
            assert_eq!(menu.pane_last_changed, BEGINNING);
            menu.root_selected
        })
        .collect();
    assert_eq!(up, vec![4, 0, 1, 2, 3]);
    let down: Vec<u8> = (0..5)
        .map(|root| {
            let mut menu = menu_at(0, root);
            menu.root_down_at(SOON_ENOUGH);
            menu.root_selected
        })
        .collect();
    assert_eq!(down, vec![1, 2, 3, 4, 0]);
}

#[test]
fn as_many_steps_as_positions_lead_back() {
    let mut menu = menu_at(1, 3);
    for step in 1..=3 {
        menu.pane_right_at(BEGINNING + step * DEBOUNCE_NANOS);
    }
    for step in 1..=5 {
        menu.root_down_at(BEGINNING + step * DEBOUNCE_NANOS);
    }
    assert_eq!(menu.pane_selected, 1);
    assert_eq!(menu.root_selected, 3);
    assert_eq!(menu.pane_last_changed, BEGINNING + 3 * DEBOUNCE_NANOS);
    assert_eq!(menu.root_selection_last_changed, BEGINNING + 5 * DEBOUNCE_NANOS);
}

#[test]
fn opposite_moves_undo_each_other() {
    let later = SOON_ENOUGH + DEBOUNCE_NANOS;
    for pane in 0..3 {
        let mut menu = menu_at(pane, 2);
        menu.pane_left_at(SOON_ENOUGH);
        assert_ne!(menu.pane_selected, pane);
        menu.pane_right_at(later);
        assert_eq!(menu.pane_selected, pane);
    }
    for root in 0..5 {
        let mut menu = menu_at(0, root);
        menu.root_up_at(SOON_ENOUGH);
        assert_ne!(menu.root_selected, root);
        menu.root_down_at(later);
        assert_eq!(menu.root_selected, root);
    }
}

#[test]
fn both_directions_share_a_timer() {
    let mut menu = menu_at(0, 0);
    menu.pane_right_at(SOON_ENOUGH);
    menu.pane_left_at(SOON_ENOUGH + DEBOUNCE_NANOS - 1);
    assert_eq!(menu.pane_selected, 1);
    menu.pane_left_at(SOON_ENOUGH + DEBOUNCE_NANOS);
    assert_eq!(menu.pane_selected, 0);
    menu.root_down_at(SOON_ENOUGH);
    menu.root_up_at(SOON_ENOUGH + DEBOUNCE_NANOS - 1);
    assert_eq!(menu.root_selected, 1);
    menu.root_up_at(SOON_ENOUGH + DEBOUNCE_NANOS);
    assert_eq!(menu.root_selected, 0);
}

#[test]
fn time_between_moments_is_never_negative() {
    assert_eq!(time_between(3, 10), 7);
    assert_eq!(time_between(10, 10), 0);
    assert_eq!(time_between(10, 3), 0);
    assert_eq!(time_between(0, u128::MAX), u128::MAX);
}

#[test]
fn moves_too_soon_are_ignored() {
    let mut menu = menu_at(1, 1);
    menu.pane_left_at(SOON_ENOUGH - 1);
    menu.pane_right_at(BEGINNING);
    menu.root_up_at(SOON_ENOUGH - 1);
    menu.root_down_at(0);
    assert_eq!(menu.pane_selected, 1);
    assert_eq!(menu.root_selected, 1);
    assert_eq!(menu.pane_last_changed, BEGINNING);
    assert_eq!(menu.root_selection_last_changed, BEGINNING);
}

#[test]
fn debounce_lasts_a_tenth_of_a_second() {
    assert_eq!(DEBOUNCE_NANOS, Duration::from_millis(100).as_nanos());
}

#[test]
fn a_cursor_outside_the_menu_stays_where_it_is() {
    let mut menu = menu_at(3, 5);
    menu.pane_left_at(SOON_ENOUGH);
    menu.pane_right_at(SOON_ENOUGH);
    menu.root_up_at(SOON_ENOUGH);
    menu.root_down_at(SOON_ENOUGH);
    menu.root_toggle();
    assert_eq!(menu.pane_selected, 3);
    assert_eq!(menu.root_selected, 5);
    assert_eq!(
        menu.selected_roots.export_roots(),
        vec![Root::HkeyLocalMachine, Root::HkeyUsers]
    );
}

#[test]
fn the_clock_lets_late_moves_pass_and_no_early_ones() {
    let mut menu = StaticSelection::default();
    menu.pane_left();
    menu.root_up();
    assert_eq!((menu.pane_selected, menu.root_selected), (0, 0));
    let made = menu.pane_last_changed;
    pass_time(Duration::from_millis(150));
    menu.pane_left();
    assert_eq!(menu.pane_selected, 2);
    assert!(menu.pane_last_changed >= made + DEBOUNCE_NANOS);
    menu.pane_right();
    assert_eq!(menu.pane_selected, 2);
    menu.root_up();
    assert_eq!(menu.root_selected, 4);
    assert!(menu.root_selection_last_changed >= menu.pane_last_changed);
    menu.root_down();
    assert_eq!(menu.root_selected, 4);
    pass_time(Duration::from_millis(150));
    menu.pane_right();
    menu.root_down();
    assert_eq!((menu.pane_selected, menu.root_selected), (0, 0));
}

#[test]
fn a_new_menu_ignores_early_moves() {
    for key in [Key::Left, Key::Right, Key::Up, Key::Down] {
        let mut menu = menu_at(0, 0);
        menu.handle_event_at(press(key), SOON_ENOUGH - 1);
        assert_eq!((menu.pane_selected, menu.root_selected), (0, 0));
        menu.handle_event_at(press(key), SOON_ENOUGH);
        assert_ne!((menu.pane_selected, menu.root_selected), (0, 0));
    }
}

#[test]
fn toggle_acts_on_the_root_under_the_cursor() {
    let mut menu = menu_at(0, 4);
    menu.root_toggle();
    assert_eq!(
        menu.selected_roots.export_roots(),
        vec![Root::HkeyLocalMachine, Root::HkeyUsers, Root::HkeyCurrentConfig]
    );
}

#[test]
fn keys_move_the_cursor() {
    let mut menu = menu_at(0, 0);
    let mut now = BEGINNING;
    let mut strike = |menu: &mut StaticSelection, key: Key| {
        now += DEBOUNCE_NANOS;
        assert!(!menu.handle_event_at(press(key), now));
    };
    strike(&mut menu, Key::Down);
    strike(&mut menu, Key::Down);
    strike(&mut menu, Key::Up);
    assert_eq!(menu.root_selected, 1);
    strike(&mut menu, Key::Enter);
    assert!(menu.selected_roots.is_selected(&Root::HkeyCurrentUser));
    strike(&mut menu, Key::Right);
    assert_eq!(menu.pane_selected, 1);
    strike(&mut menu, Key::Down);
    strike(&mut menu, Key::Up);
    strike(&mut menu, Key::Enter);
    assert_eq!(menu.root_selected, 1);
    assert!(menu.selected_roots.is_selected(&Root::HkeyCurrentUser));
    strike(&mut menu, Key::Left);
    assert_eq!(menu.pane_selected, 0);
}

#[test]
fn only_presses_count() {
    for kind in [KeyKind::Repeat, KeyKind::Release] {
        for key in [Key::Char('q'), Key::Esc, Key::Left, Key::Right, Key::Down, Key::Enter] {
            let mut menu = menu_at(0, 0);
            assert!(!menu.handle_event_at(InputEvent::Key { kind, key }, SOON_ENOUGH));
            assert_eq!((menu.pane_selected, menu.root_selected), (0, 0));
            assert_eq!(menu.pane_last_changed, BEGINNING);
            assert!(!menu.selected_roots.classes_root);
        }
    }
}

#[test]
fn q_and_escape_end_the_program() {
    let mut menu = StaticSelection::default();
    assert!(menu.handle_event(press(Key::Char('q'))));
    assert!(menu.handle_event(press(Key::Esc)));
    assert!(!menu.handle_event(press(Key::Char('Q'))));
    assert!(!menu.handle_event(press(Key::Other)));
    assert!(!menu.handle_event(InputEvent::Other));
    assert_eq!(menu.pane_selected, 0);
    assert_eq!(menu.root_selected, 0);
}

#[test]
fn each_cursor_has_a_timer_of_its_own() {
    let mut menu = StaticSelection { pane_last_changed: SOON_ENOUGH, ..menu_at(0, 0) };
    menu.handle_event_at(press(Key::Right), SOON_ENOUGH);
    assert_eq!(menu.pane_selected, 0);
    menu.handle_event_at(press(Key::Down), SOON_ENOUGH);
    assert_eq!(menu.root_selected, 1);
    menu.handle_event_at(press(Key::Down), SOON_ENOUGH);
    assert_eq!(menu.root_selected, 1);
    menu.handle_event_at(press(Key::Enter), SOON_ENOUGH);
    assert!(menu.selected_roots.current_user);

    let mut menu = StaticSelection { root_selection_last_changed: SOON_ENOUGH, ..menu_at(0, 0) };
    menu.handle_event_at(press(Key::Up), SOON_ENOUGH);
    assert_eq!(menu.root_selected, 0);
    menu.handle_event_at(press(Key::Left), SOON_ENOUGH);
    assert_eq!(menu.pane_selected, 2);
}

#[test]
fn root_list_shows_names_and_states() {
    let lines = menu_at(0, 2).generate_root_list();
    let texts: Vec<&str> = lines.iter().map(|line| line.text.as_str()).collect();
    assert_eq!(
        texts,
        vec![
            "HKEY_CLASSES_ROOT        Disabled",
            "HKEY_CURRENT_USER        Disabled",
            "HKEY_LOCAL_MACHINE       Enabled",
            "HKEY_USERS               Enabled",
            "HKEY_CURRENT_CONFIG      Disabled",
        ]
    );
    let colours: Vec<Option<Colour>> = lines.iter().map(|line| line.colour).collect();
    assert_eq!(
        colours,
        vec![
            Some(Colour::White),
            Some(Colour::White),
            Some(Colour::Cyan),
            Some(Colour::White),
            Some(Colour::White),
        ]
    );
}

#[test]
fn no_root_stands_out_while_another_pane_is_selected() {
    for line in menu_at(1, 2).generate_root_list() {
        assert_eq!(line.colour, Some(Colour::White));
    }
}

#[test]
fn padding_agrees_with_formatting() {
    for text in ["", "HKEY_USERS", "h\u{e4}\u{df}lich", "exactly twenty-five chars", "longer than twenty-five characters"] {
        assert_eq!(pad(text.to_string(), 25), format!("{:25}", text));
    }
    assert_eq!(pad("ab".to_string(), 4), "ab  ");
}
