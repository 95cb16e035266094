//! What holds of every call of an operation of the menu and of the screens, whatever it is called
//! with and whatever it gives back. `call_ensures` holds of a function, what it was called with,
//! and what the call gave.

use vstd::prelude::*;

use crate::clock::{time_between, Clock};
use crate::input::{InputEvent, Key, KeyKind};
use crate::menu::{compose_menu, lay_out_menu, menu_laid_out, menu_of, menu_screen, MenuAreas};
use crate::menu_laws::{
    law_each_key_does_its_own, law_each_root_has_its_line, law_panes_are_next_to_each_other,
    law_roots_are_below_each_other, law_toggle_switches_the_root_under_the_cursor,
};
use crate::renderer::{
    compose, laid_out, lay_out, renderer, screen_of, Focus, ScreenAreas, ScreenContents,
};
use crate::roots::{
    all_roots, law_each_root_has_its_switch, law_export_is_the_selection, law_roots_in_menu_order,
    Root, SelectedRoots,
};
use crate::screen::{border_colour, line_models, widget_models, Area, Colour, StyledLine, Widget};
use crate::screen_laws::{
    law_box_says_what_is_asked, law_menu_shows_its_panes, law_run_control_is_named,
    law_screen_shows_its_parts, law_search_terms_show_their_pane, law_tips_in_one_line,
};
use crate::static_selection::StaticSelection;
use crate::text::{pad, texts};
use crate::text_laws::{
    law_lines_one_for_one, law_padding_adds_blanks_behind, law_texts_one_for_one,
    law_widgets_one_for_one,
};
use crate::text_set::TextSet;

verus! {

// ---- Texts and time ----

/// The time between two moments is their difference, and none where the second is not the later
/// one.
pub proof fn law_every_time_between(since: u128, now: u128, time: u128)
    requires
        call_ensures(time_between, (since, now), time),
    ensures
        since <= now ==> time == now - since,
        since > now ==> time == 0,
{
}

/// A text that is filled up stays in front, with blanks alone behind it, up to the width.
pub proof fn law_every_padding(text: String, width: usize, result: String)
    requires
        call_ensures(pad, (text, width), result),
    ensures
        result@.len() == if text@.len() < width {
            width as nat
        } else {
            text@.len()
        },
        forall|i: int| 0 <= i < text@.len() ==> #[trigger] result@[i] == text@[i],
        forall|i: int| text@.len() <= i < result@.len() ==> #[trigger] result@[i] == ' ',
{
    law_padding_adds_blanks_behind(text@, width as nat);
}

/// A set of texts begins empty; it has what it had and what is added, and says whether that is new;
/// it says of a text whether it has it.
pub proof fn law_every_set_of_texts(
    new_set: TextSet,
    set: &mut TextSet,
    text: String,
    added: bool,
    asked: &TextSet,
    other: &str,
    found: bool,
    member: Seq<char>,
)
    ensures
        call_ensures(TextSet::new, (), new_set) ==> !new_set@.contains(member)
            && new_set.in_order().len() == 0,
        call_ensures(TextSet::insert, (set, text), added) ==> {
            &&& final(set)@.contains(member) <==> old(set)@.contains(member) || member == text@
            &&& added <==> !old(set)@.contains(text@)
            &&& added ==> final(set).in_order() == old(set).in_order().push(text@)
            &&& !added ==> final(set).in_order() == old(set).in_order()
        },
        call_ensures(TextSet::contains, (asked, other), found) ==> (found <==> asked@.contains(
            other@,
        )),
{
}

/// The list of a set has every member once and nothing else, in the order in which they came.
pub proof fn law_every_list_of_texts(set: &TextSet, list: &Vec<String>)
    requires
        call_ensures(TextSet::list, (set,), list),
    ensures
        list@.len() == set.in_order().len(),
        forall|i: int| 0 <= i < list@.len() ==> (#[trigger] list@[i])@ == set.in_order()[i],
        forall|i: int| 0 <= i < list@.len() ==> set@.contains((#[trigger] list@[i])@),
        forall|member: Seq<char>| #[trigger]
            set@.contains(member) ==> exists|i: int|
                0 <= i < list@.len() && (#[trigger] list@[i])@ == member,
        forall|i: int, j: int|
            0 <= i < j < list@.len() ==> (#[trigger] list@[i])@ != (#[trigger] list@[j])@,
{
    law_texts_one_for_one(list@);
    let order = set.in_order();
    assert(order == texts(list@));
    assert forall|i: int| 0 <= i < list@.len() implies (#[trigger] list@[i])@ == order[i] by {
        assert(texts(list@)[i] == list@[i]@);
    }
    assert forall|i: int| 0 <= i < list@.len() implies set@.contains((#[trigger] list@[i])@) by {
        assert(order.contains(order[i]));
        assert(order.to_set().contains(order[i]));
    }
    assert forall|member: Seq<char>| #[trigger] set@.contains(member) implies exists|i: int|
        0 <= i < list@.len() && (#[trigger] list@[i])@ == member by {
        assert(order.to_set().contains(member));
        let i = choose|i: int| 0 <= i < order.len() && order[i] == member;
        assert(list@[i]@ == member);
    }
    assert forall|i: int, j: int| 0 <= i < j < list@.len() implies (#[trigger] list@[i])@ != (
    #[trigger] list@[j])@ by {
        assert(order[i] != order[j]);
    }
}

// ---- Roots ----

/// The roots by their places, their places, all of them, and their names.
pub proof fn law_every_root(
    value: u8,
    root: Option<Root>,
    of: &Root,
    index: u8,
    roots: Vec<Root>,
    name: String,
)
    ensures
        call_ensures(Root::from_u8, (value,), root) ==> root == match value {
            0u8 => Some(Root::HkeyClassesRoot),
            1u8 => Some(Root::HkeyCurrentUser),
            2u8 => Some(Root::HkeyLocalMachine),
            3u8 => Some(Root::HkeyUsers),
            4u8 => Some(Root::HkeyCurrentConfig),
            _ => None,
        },
        call_ensures(Root::index, (of,), index) ==> index == match *of {
            Root::HkeyClassesRoot => 0u8,
            Root::HkeyCurrentUser => 1u8,
            Root::HkeyLocalMachine => 2u8,
            Root::HkeyUsers => 3u8,
            Root::HkeyCurrentConfig => 4u8,
        },
        call_ensures(Root::iter, (), roots) ==> roots@ == seq![
            Root::HkeyClassesRoot,
            Root::HkeyCurrentUser,
            Root::HkeyLocalMachine,
            Root::HkeyUsers,
            Root::HkeyCurrentConfig,
        ],
        call_ensures(Root::to_string, (of,), name) ==> name@ == match *of {
            Root::HkeyClassesRoot => "HKEY_CLASSES_ROOT"@,
            Root::HkeyCurrentUser => "HKEY_CURRENT_USER"@,
            Root::HkeyLocalMachine => "HKEY_LOCAL_MACHINE"@,
            Root::HkeyUsers => "HKEY_USERS"@,
            Root::HkeyCurrentConfig => "HKEY_CURRENT_CONFIG"@,
        },
{
    law_roots_in_menu_order();
}

/// A root is said to be selected exactly where its own switch is on.
pub proof fn law_every_answer_on_a_root(selected: &SelectedRoots, root: &Root, answer: bool)
    requires
        call_ensures(SelectedRoots::is_selected, (selected, root), answer),
    ensures
        answer == match *root {
            Root::HkeyClassesRoot => selected.classes_root,
            Root::HkeyCurrentUser => selected.current_user,
            Root::HkeyLocalMachine => selected.local_machine,
            Root::HkeyUsers => selected.users,
            Root::HkeyCurrentConfig => selected.current_config,
        },
{
    law_each_root_has_its_switch(*selected);
}

/// What is exported has every root whose switch is on, no other, each once, in the order of the
/// menu.
pub proof fn law_every_export(selected: &SelectedRoots, roots: Vec<Root>)
    requires
        call_ensures(SelectedRoots::export_roots, (selected,), roots),
    ensures
        roots@.contains(Root::HkeyClassesRoot) == selected.classes_root,
        roots@.contains(Root::HkeyCurrentUser) == selected.current_user,
        roots@.contains(Root::HkeyLocalMachine) == selected.local_machine,
        roots@.contains(Root::HkeyUsers) == selected.users,
        roots@.contains(Root::HkeyCurrentConfig) == selected.current_config,
        roots@.no_duplicates(),
        forall|i: int, j: int|
            0 <= i < j < roots@.len() ==> (#[trigger] roots@[i]).position() < (
            #[trigger] roots@[j]).position(),
{
    law_each_root_has_its_switch(*selected);
    law_export_is_the_selection(*selected, Root::HkeyClassesRoot);
    law_export_is_the_selection(*selected, Root::HkeyCurrentUser);
    law_export_is_the_selection(*selected, Root::HkeyLocalMachine);
    law_export_is_the_selection(*selected, Root::HkeyUsers);
    law_export_is_the_selection(*selected, Root::HkeyCurrentConfig);
}

/// Toggling a root turns its own switch, and no other.
pub proof fn law_every_toggle(selected: &mut SelectedRoots, root: &Root)
    requires
        call_ensures(SelectedRoots::toggle, (selected, root), ()),
    ensures
        final(selected).classes_root == (old(selected).classes_root != (*root
            is HkeyClassesRoot)),
        final(selected).current_user == (old(selected).current_user != (*root
            is HkeyCurrentUser)),
        final(selected).local_machine == (old(selected).local_machine != (*root
            is HkeyLocalMachine)),
        final(selected).users == (old(selected).users != (*root is HkeyUsers)),
        final(selected).current_config == (old(selected).current_config != (*root
            is HkeyCurrentConfig)),
{
}

/// At first the local machine and the users are selected, and no other root.
pub proof fn law_every_first_selection(selected: SelectedRoots)
    requires
        call_ensures(<SelectedRoots as Default>::default, (), selected),
    ensures
        selected.local_machine && selected.users,
        !selected.classes_root && !selected.current_user && !selected.current_config,
{
}

// ---- The menu ----

/// Whether only the cursor between panes can differ.
pub open spec fn panes_alone(before: StaticSelection, after: StaticSelection) -> bool {
    &&& after.clock == before.clock
    &&& after.root_selected == before.root_selected
    &&& after.root_selection_last_changed == before.root_selection_last_changed
    &&& after.control_selected == before.control_selected
    &&& after.selected_roots == before.selected_roots
}

/// Whether only the cursor between roots can differ.
pub open spec fn roots_alone(before: StaticSelection, after: StaticSelection) -> bool {
    &&& after.clock == before.clock
    &&& after.pane_selected == before.pane_selected
    &&& after.pane_last_changed == before.pane_last_changed
    &&& after.control_selected == before.control_selected
    &&& after.selected_roots == before.selected_roots
}

/// Whether a move of `step` panes in the ring of three was made at the moment `now`: it is taken
/// and noted exactly where a tenth of a second or more has gone by since the last one.
pub open spec fn moves_panes(
    before: StaticSelection,
    after: StaticSelection,
    step: int,
    now: u128,
) -> bool {
    &&& panes_alone(before, after)
    &&& if now - before.pane_last_changed >= 100_000_000 && before.pane_selected <= 2 {
        after.pane_selected == (before.pane_selected + step) % 3 && after.pane_last_changed == now
    } else {
        after.pane_selected == before.pane_selected && after.pane_last_changed
            == before.pane_last_changed
    }
}

/// Whether a move of `step` roots in the ring of five was made at the moment `now`: it is taken and
/// noted exactly where a tenth of a second or more has gone by since the last one.
pub open spec fn moves_roots(
    before: StaticSelection,
    after: StaticSelection,
    step: int,
    now: u128,
) -> bool {
    &&& roots_alone(before, after)
    &&& if now - before.root_selection_last_changed >= 100_000_000 && before.root_selected <= 4 {
        after.root_selected == (before.root_selected + step) % 5
            && after.root_selection_last_changed == now
    } else {
        after.root_selected == before.root_selected && after.root_selection_last_changed
            == before.root_selection_last_changed
    }
}

/// Every move at a given moment.
pub proof fn law_every_move_at(selection: &mut StaticSelection, now: u128)
    ensures
        call_ensures(StaticSelection::pane_left_at, (selection, now), ()) ==> moves_panes(
            *old(selection),
            *final(selection),
            2,
            now,
        ),
        call_ensures(StaticSelection::pane_right_at, (selection, now), ()) ==> moves_panes(
            *old(selection),
            *final(selection),
            1,
            now,
        ),
        call_ensures(StaticSelection::root_up_at, (selection, now), ()) ==> moves_roots(
            *old(selection),
            *final(selection),
            4,
            now,
        ),
        call_ensures(StaticSelection::root_down_at, (selection, now), ()) ==> moves_roots(
            *old(selection),
            *final(selection),
            1,
            now,
        ),
{
    law_panes_are_next_to_each_other(*old(selection), now);
    law_roots_are_below_each_other(*old(selection), now);
}

/// Every move is one at a moment that the menu's own clock can give, and at no other.
pub proof fn law_every_move_to_the_left(selection: &mut StaticSelection)
    requires
        call_ensures(StaticSelection::pane_left, (selection,), ()),
    ensures
        exists|now: u128|
            old(selection).clock.can_read(now) && #[trigger] moves_panes(
                *old(selection),
                *final(selection),
                2,
                now,
            ),
{
    let now = choose|now: u128|
        old(selection).clock.can_read(now) && *final(selection) == #[trigger] old(
            selection,
        ).left_at(now);
    law_panes_are_next_to_each_other(*old(selection), now);
    assert(moves_panes(*old(selection), *final(selection), 2, now));
}

/// Every move is one at a moment that the menu's own clock can give, and at no other.
pub proof fn law_every_move_to_the_right(selection: &mut StaticSelection)
    requires
        call_ensures(StaticSelection::pane_right, (selection,), ()),
    ensures
        exists|now: u128|
            old(selection).clock.can_read(now) && #[trigger] moves_panes(
                *old(selection),
                *final(selection),
                1,
                now,
            ),
{
    let now = choose|now: u128|
        old(selection).clock.can_read(now) && *final(selection) == #[trigger] old(
            selection,
        ).right_at(now);
    law_panes_are_next_to_each_other(*old(selection), now);
    assert(moves_panes(*old(selection), *final(selection), 1, now));
}

/// Every move is one at a moment that the menu's own clock can give, and at no other.
pub proof fn law_every_move_up(selection: &mut StaticSelection)
    requires
        call_ensures(StaticSelection::root_up, (selection,), ()),
    ensures
        exists|now: u128|
            old(selection).clock.can_read(now) && #[trigger] moves_roots(
                *old(selection),
                *final(selection),
                4,
                now,
            ),
{
    let now = choose|now: u128|
        old(selection).clock.can_read(now) && *final(selection) == #[trigger] old(
            selection,
        ).up_at(now);
    law_roots_are_below_each_other(*old(selection), now);
    assert(moves_roots(*old(selection), *final(selection), 4, now));
}

/// Every move is one at a moment that the menu's own clock can give, and at no other.
pub proof fn law_every_move_down(selection: &mut StaticSelection)
    requires
        call_ensures(StaticSelection::root_down, (selection,), ()),
    ensures
        exists|now: u128|
            old(selection).clock.can_read(now) && #[trigger] moves_roots(
                *old(selection),
                *final(selection),
                1,
                now,
            ),
{
    let now = choose|now: u128|
        old(selection).clock.can_read(now) && *final(selection) == #[trigger] old(
            selection,
        ).down_at(now);
    law_roots_are_below_each_other(*old(selection), now);
    assert(moves_roots(*old(selection), *final(selection), 1, now));
}

/// Whether the root under the cursor, and no other, was switched to its opposite, and nothing else
/// was changed.
pub open spec fn switches_the_root(
    before: StaticSelection,
    after: StaticSelection,
    root: Root,
) -> bool {
    &&& after.selected_roots.has(root) == (before.selected_roots.has(root) != (root.position()
        == before.root_selected))
    &&& after.pane_selected == before.pane_selected
    &&& after.pane_last_changed == before.pane_last_changed
    &&& after.root_selected == before.root_selected
    &&& after.root_selection_last_changed == before.root_selection_last_changed
    &&& after.control_selected == before.control_selected
    &&& after.clock == before.clock
}

/// Toggling in the menu switches the root under the cursor, and nothing else.
pub proof fn law_every_toggle_in_the_menu(selection: &mut StaticSelection, root: Root)
    requires
        call_ensures(StaticSelection::root_toggle, (selection,), ()),
    ensures
        switches_the_root(*old(selection), *final(selection), root),
{
    law_toggle_switches_the_root_under_the_cursor(*old(selection), root);
}

/// Whether an event did to the menu, at the moment `now`, what it is for.
pub open spec fn is_handled(
    before: StaticSelection,
    event: InputEvent,
    after: StaticSelection,
    now: u128,
    root: Root,
) -> bool {
    match event {
        InputEvent::Key { kind: KeyKind::Press, key: Key::Left } => moves_panes(
            before,
            after,
            2,
            now,
        ),
        InputEvent::Key { kind: KeyKind::Press, key: Key::Right } => moves_panes(
            before,
            after,
            1,
            now,
        ),
        InputEvent::Key { kind: KeyKind::Press, key: Key::Up } if before.pane_selected == 0 => moves_roots(
            before,
            after,
            4,
            now,
        ),
        InputEvent::Key {
            kind: KeyKind::Press,
            key: Key::Down,
        } if before.pane_selected == 0 => moves_roots(before, after, 1, now),
        InputEvent::Key {
            kind: KeyKind::Press,
            key: Key::Enter,
        } if before.pane_selected == 0 => switches_the_root(before, after, root),
        _ => after == before,
    }
}

/// Every event at a given moment does what it is for, and ends the program exactly where it is a
/// press of `q` or Escape.
pub proof fn law_every_event_at(
    selection: &mut StaticSelection,
    event: InputEvent,
    now: u128,
    stop: bool,
    root: Root,
)
    requires
        call_ensures(StaticSelection::handle_event_at, (selection, event, now), stop),
    ensures
        is_handled(*old(selection), event, *final(selection), now, root),
        stop <==> {
            ||| event == InputEvent::Key { kind: KeyKind::Press, key: Key::Char('q') }
            ||| event == InputEvent::Key { kind: KeyKind::Press, key: Key::Esc }
        },
{
    lemma_event_is_handled(*old(selection), event, now, root);
}

proof fn lemma_event_is_handled(
    before: StaticSelection,
    event: InputEvent,
    now: u128,
    root: Root,
)
    ensures
        is_handled(before, event, before.after_event(event, now), now, root),
{
    law_each_key_does_its_own(before, event, now);
    law_panes_are_next_to_each_other(before, now);
    law_roots_are_below_each_other(before, now);
    law_toggle_switches_the_root_under_the_cursor(before, root);
}

/// Every event does what it is for at a moment that the menu's own clock can give, and at no other.
/// So an arrow that is pressed late enough by that clock moves the cursor.
pub proof fn law_every_event(
    selection: &mut StaticSelection,
    event: InputEvent,
    stop: bool,
    root: Root,
)
    requires
        call_ensures(StaticSelection::handle_event, (selection, event), stop),
    ensures
        exists|now: u128|
            old(selection).clock.can_read(now) && #[trigger] is_handled(
                *old(selection),
                event,
                *final(selection),
                now,
                root,
            ),
        stop <==> {
            ||| event == InputEvent::Key { kind: KeyKind::Press, key: Key::Char('q') }
            ||| event == InputEvent::Key { kind: KeyKind::Press, key: Key::Esc }
        },
{
    let now = choose|now: u128|
        old(selection).clock.can_read(now) && *final(selection) == #[trigger] old(
            selection,
        ).after_event(event, now);
    lemma_event_is_handled(*old(selection), event, now, root);
    law_each_key_does_its_own(*old(selection), event, now);
    assert(is_handled(*old(selection), event, *final(selection), now, root));
}

/// A menu that is made at a given moment.
pub proof fn law_every_menu_made_at(clock: Clock, now: u128, menu: StaticSelection)
    requires
        call_ensures(StaticSelection::default_at, (clock, now), menu),
    ensures
        menu.clock == clock,
        menu.pane_selected == 0 && menu.root_selected == 0 && menu.control_selected == 0,
        menu.pane_last_changed == now && menu.root_selection_last_changed == now,
        menu.selected_roots.local_machine && menu.selected_roots.users,
        !menu.selected_roots.classes_root && !menu.selected_roots.current_user,
        !menu.selected_roots.current_config,
{
}

/// A menu that is made now: its own clock can give the moment at which it was.
pub proof fn law_every_new_menu(menu: StaticSelection)
    requires
        call_ensures(<StaticSelection as Default>::default, (), menu),
    ensures
        menu.clock.can_read(menu.pane_last_changed),
        menu.pane_selected == 0 && menu.root_selected == 0 && menu.control_selected == 0,
        menu.pane_last_changed == menu.root_selection_last_changed,
        menu.selected_roots.local_machine && menu.selected_roots.users,
        !menu.selected_roots.classes_root && !menu.selected_roots.current_user,
        !menu.selected_roots.current_config,
{
}

/// The pane of the search terms is said to be selected exactly where it is the second.
pub proof fn law_every_answer_on_the_search_terms(selection: &StaticSelection, selected: bool)
    requires
        call_ensures(StaticSelection::search_terms_selected, (selection,), selected),
    ensures
        selected <==> selection.pane_selected == 1,
{
}

/// The list of the roots has a line for each, in their order: the name, blanks up to the
/// twenty-fifth character, and whether it is enabled; in cyan under the cursor while its pane is
/// selected, and in white otherwise.
pub proof fn law_every_list_of_roots(
    selection: &StaticSelection,
    lines: Vec<StyledLine>,
    i: int,
)
    requires
        call_ensures(StaticSelection::generate_root_list, (selection,), lines),
        0 <= i < 5,
    ensures
        ({
            let root = all_roots()[i];
            let text = lines@[i].text@;
            &&& lines@.len() == 5
            &&& text.take(root.name().len() as int) == root.name()
            &&& forall|c: int| root.name().len() <= c < 25 ==> #[trigger] text[c] == ' '
            &&& selection.selected_roots.has(root) ==> text.skip(25) == "Enabled"@
            &&& !selection.selected_roots.has(root) ==> text.skip(25) == "Disabled"@
            &&& lines@[i].colour == if selection.pane_selected == 0 && selection.root_selected
                == i {
                Some(Colour::Cyan)
            } else {
                Some(Colour::White)
            }
        }),
{
    law_lines_one_for_one(lines@);
    law_each_root_has_its_line(*selection, i);
    assert(line_models(lines@)[i] == selection.root_lines()[i]);
}

/// The border of a pane is light magenta where it is selected, and white otherwise.
pub proof fn law_every_border(selected: bool, colour: Colour)
    requires
        call_ensures(border_colour, (selected,), colour),
    ensures
        selected ==> colour == Colour::LightMagenta,
        !selected ==> colour == Colour::White,
{
}

// ---- The screens ----

/// Whether a widget is a pane at this place, with this title, and with the border of a selected
/// pane or of another.
pub open spec fn is_pane(
    widget: Widget,
    area: Area,
    title: Seq<char>,
    selected: bool,
    wrap: bool,
) -> bool {
    &&& widget.area == area
    &&& widget.wrap == wrap
    &&& widget.panel is Some
    &&& widget.panel->0.title@ == title
    &&& widget.panel->0.background is None
    &&& selected ==> widget.panel->0.border == Colour::LightMagenta
    &&& !selected ==> widget.panel->0.border == Colour::White
}

/// Whether a widget has these lines, one for one and in their order.
pub open spec fn has_lines(widget: Widget, lines: Seq<StyledLine>) -> bool {
    &&& widget.lines@.len() == lines.len()
    &&& forall|k: int|
        0 <= k < lines.len() ==> {
            &&& (#[trigger] widget.lines@[k]).text@ == lines[k].text@
            &&& widget.lines@[k].colour == lines[k].colour
        }
}

/// Whether a widget has this one line.
pub open spec fn has_line(widget: Widget, text: Seq<char>, colour: Option<Colour>) -> bool {
    &&& widget.lines@.len() == 1
    &&& widget.lines@[0].text@ == text
    &&& widget.lines@[0].colour == colour
}

/// Whether widgets show a search: the tips, the roots, the search terms, the run control and the
/// results at their places, and a box over them where one is asked for and has a place.
pub open spec fn shows_a_search(
    widgets: Seq<Widget>,
    selection: StaticSelection,
    contents: ScreenContents,
    areas: ScreenAreas,
) -> bool {
    &&& widgets.len() == if contents.focus is Main || areas.overlay is None {
        5int
    } else {
        6int
    }
    &&& widgets[0].area == areas.tips && widgets[0].panel is None && widgets[0].wrap
    &&& has_line(
        widgets[0],
        "[H for the Help menu] [Arrow keys for navigation] [Enter to select/toggle] [Page up/down for first/last element] [F5 Start/Stop] "@,
        None,
    )
    &&& is_pane(widgets[1], areas.roots, "Root Selection"@, selection.pane_selected == 0, false)
    &&& line_models(widgets[1].lines@) == selection.root_lines()
    &&& is_pane(widgets[2], areas.search_terms, "Search Terms"@, selection.pane_selected == 1, true)
    &&& selection.pane_selected == 1 ==> has_lines(widgets[2], contents.search_terms.selected@)
    &&& selection.pane_selected != 1 ==> has_lines(widgets[2], contents.search_terms.unselected@)
    &&& is_pane(widgets[3], areas.controls, "Controls"@, false, true)
    &&& !contents.running ==> has_line(widgets[3], "Start"@, Some(Colour::White))
    &&& contents.running && !contents.run_control_disabled ==> has_line(
        widgets[3],
        "Stop"@,
        Some(Colour::Green),
    )
    &&& contents.running && contents.run_control_disabled ==> has_line(
        widgets[3],
        "Stopping"@,
        Some(Colour::Red),
    )
    &&& is_pane(widgets[4], areas.results, "Results"@, selection.pane_selected == 2, false)
    &&& has_lines(widgets[4], contents.results@)
    &&& areas.overlay is Some && !(contents.focus is Main) ==> {
        &&& widgets[5].area == areas.overlay->0 && !widgets[5].wrap
        &&& widgets[5].panel is Some
        &&& widgets[5].panel->0.border == Colour::White
        &&& widgets[5].panel->0.background == Some(Colour::DarkGray)
        &&& contents.focus is ConfirmClose ==> widgets[5].panel->0.title@ == "Confirm Close"@
            && has_line(widgets[5], "Y/N"@, None)
        &&& contents.focus is Help ==> widgets[5].panel->0.title@ == "Help/Controls"@ && has_line(
            widgets[5],
            "Placeholder"@,
            None,
        )
        &&& contents.focus matches Focus::SearchMod(lines) ==> widgets[5].panel->0.title@
            == "Search Modify"@ && has_lines(widgets[5], lines@)
    }
}

proof fn lemma_shows_a_search(
    widgets: Seq<Widget>,
    selection: StaticSelection,
    contents: ScreenContents,
    areas: ScreenAreas,
)
    requires
        widget_models(widgets) == screen_of(selection, contents, areas),
    ensures
        shows_a_search(widgets, selection, contents, areas),
{
    let parts = screen_of(selection, contents, areas);
    law_tips_in_one_line();
    law_screen_shows_its_parts(selection, contents, areas);
    law_run_control_is_named(selection, contents, areas);
    law_search_terms_show_their_pane(selection, contents, areas);
    law_lines_one_for_one(contents.search_terms.selected@);
    law_lines_one_for_one(contents.search_terms.unselected@);
    law_widgets_one_for_one(widgets);
    if let Some(place) = areas.overlay {
        law_box_says_what_is_asked(selection, contents, areas, place);
    }
    assert(widgets[0]@ == parts[0]);
    assert(widgets[1]@ == parts[1]);
    assert(widgets[2]@ == parts[2]);
    assert(widgets[3]@ == parts[3]);
    assert(widgets[4]@ == parts[4]);
    law_lines_one_for_one(widgets[0].lines@);
    law_lines_one_for_one(widgets[2].lines@);
    law_lines_one_for_one(widgets[3].lines@);
    law_lines_one_for_one(widgets[4].lines@);
    assert(widgets[0].lines@[0]@ == parts[0].lines[0]);
    assert(widgets[3].lines@[0]@ == parts[3].lines[0]);
    assert forall|k: int| 0 <= k < widgets[4].lines@.len() implies {
        &&& (#[trigger] widgets[4].lines@[k]).text@ == contents.results@[k].text@
        &&& widgets[4].lines@[k].colour == contents.results@[k].colour
    } by {
        assert(parts[4].lines[k] == widgets[4].lines@[k]@);
    }
    assert forall|k: int| 0 <= k < widgets[2].lines@.len() implies {
        &&& (#[trigger] widgets[2].lines@[k]).text@ == parts[2].lines[k].text
        &&& widgets[2].lines@[k].colour == parts[2].lines[k].colour
    } by {
        assert(parts[2].lines[k] == widgets[2].lines@[k]@);
    }
    if areas.overlay is Some && !(contents.focus is Main) {
        assert(widgets[5]@ == parts[5]);
        law_lines_one_for_one(widgets[5].lines@);
        assert forall|k: int| 0 <= k < widgets[5].lines@.len() implies {
            &&& (#[trigger] widgets[5].lines@[k]).text@ == parts[5].lines[k].text
            &&& widgets[5].lines@[k].colour == parts[5].lines[k].colour
        } by {
            assert(parts[5].lines[k] == widgets[5].lines@[k]@);
        }
    }
}

/// Every screen of a search, at given places.
pub proof fn law_every_screen(
    selection: &StaticSelection,
    contents: ScreenContents,
    areas: &ScreenAreas,
    widgets: Vec<Widget>,
)
    requires
        call_ensures(compose, (selection, contents, areas), widgets),
    ensures
        shows_a_search(widgets@, *selection, contents, *areas),
{
    lemma_shows_a_search(widgets@, *selection, contents, *areas);
}

/// Every screen of a search on a terminal is laid out on it, with room for a box exactly where one
/// is asked for.
pub proof fn law_every_screen_on_a_terminal(
    selection: &StaticSelection,
    contents: ScreenContents,
    width: u16,
    height: u16,
    widgets: Vec<Widget>,
) -> (areas: ScreenAreas)
    requires
        call_ensures(renderer, (selection, contents, width, height), widgets),
    ensures
        laid_out(width, height, !(contents.focus is Main), areas),
        shows_a_search(widgets@, *selection, contents, areas),
{
    let areas = choose|areas: ScreenAreas|
        laid_out(width, height, !(contents.focus is Main), areas) && widget_models(widgets@)
            == #[trigger] screen_of(*selection, contents, areas);
    lemma_shows_a_search(widgets@, *selection, contents, areas);
    areas
}

/// Whether an area reaches nowhere beyond a terminal of this size.
pub open spec fn lies_on(area: Area, width: u16, height: u16) -> bool {
    area.x + area.width <= width && area.y + area.height <= height
}

/// Every layout of the screen of a search. No part reaches beyond the terminal.
pub proof fn law_every_layout(width: u16, height: u16, overlay: bool, areas: ScreenAreas)
    requires
        call_ensures(lay_out, (width, height, overlay), areas),
    ensures
        laid_out(width, height, overlay, areas),
        lies_on(areas.tips, width, height),
        lies_on(areas.roots, width, height),
        lies_on(areas.search_terms, width, height),
        lies_on(areas.controls, width, height),
        lies_on(areas.results, width, height),
        areas.overlay is Some == overlay,
        overlay ==> lies_on(areas.overlay->0, width, height),
{
    assert(areas.has(areas.tips));
    assert(areas.has(areas.roots));
    assert(areas.has(areas.search_terms));
    assert(areas.has(areas.controls));
    assert(areas.has(areas.results));
    if overlay {
        assert(areas.has(areas.overlay->0));
    }
}

/// Whether widgets show the menu: the roots, the controls and the results, side by side at their
/// places.
pub open spec fn shows_the_menu(
    widgets: Seq<Widget>,
    selection: StaticSelection,
    areas: MenuAreas,
) -> bool {
    &&& widgets.len() == 3
    &&& is_pane(widgets[0], areas.selection, "Selection"@, selection.pane_selected == 0, false)
    &&& line_models(widgets[0].lines@) == selection.root_lines()
    &&& is_pane(widgets[1], areas.controls, "Controls"@, selection.pane_selected == 1, true)
    &&& widgets[1].lines@.len() == 3
    &&& widgets[1].lines@[0].text@ == "Start"@
    &&& widgets[1].lines@[1].text@ == "Stop"@
    &&& widgets[1].lines@[2].text@ == "Pause"@
    &&& forall|k: int|
        0 <= k < 3 ==> (#[trigger] widgets[1].lines@[k]).colour == Some(Colour::White)
    &&& is_pane(widgets[2], areas.results, "Results"@, selection.pane_selected == 2, false)
    &&& has_line(widgets[2], "Results will be shown here."@, None)
}

proof fn lemma_shows_the_menu(
    widgets: Seq<Widget>,
    selection: StaticSelection,
    areas: MenuAreas,
)
    requires
        widget_models(widgets) == menu_of(selection, areas),
    ensures
        shows_the_menu(widgets, selection, areas),
{
    let panes = menu_of(selection, areas);
    law_menu_shows_its_panes(selection, areas);
    law_widgets_one_for_one(widgets);
    assert(widgets[0]@ == panes[0]);
    assert(widgets[1]@ == panes[1]);
    assert(widgets[2]@ == panes[2]);
    law_lines_one_for_one(widgets[1].lines@);
    law_lines_one_for_one(widgets[2].lines@);
    assert forall|k: int| 0 <= k < 3 implies (#[trigger] widgets[1].lines@[k]).text@
        == panes[1].lines[k].text && widgets[1].lines@[k].colour == panes[1].lines[k].colour by {
        assert(panes[1].lines[k] == widgets[1].lines@[k]@);
    }
    assert(widgets[2].lines@[0]@ == panes[2].lines[0]);
}

/// Every screen of the menu, at given places.
pub proof fn law_every_menu_screen(
    selection: &StaticSelection,
    areas: &MenuAreas,
    widgets: Vec<Widget>,
)
    requires
        call_ensures(compose_menu, (selection, areas), widgets),
    ensures
        shows_the_menu(widgets@, *selection, *areas),
{
    lemma_shows_the_menu(widgets@, *selection, *areas);
}

/// Every screen of the menu on a terminal is laid out on it.
pub proof fn law_every_menu_screen_on_a_terminal(
    selection: &StaticSelection,
    width: u16,
    height: u16,
    widgets: Vec<Widget>,
) -> (areas: MenuAreas)
    requires
        call_ensures(menu_screen, (selection, width, height), widgets),
    ensures
        menu_laid_out(width, height, areas),
        shows_the_menu(widgets@, *selection, areas),
{
    let areas = choose|areas: MenuAreas|
        menu_laid_out(width, height, areas) && widget_models(widgets@) == #[trigger] menu_of(
            *selection,
            areas,
        );
    lemma_shows_the_menu(widgets@, *selection, areas);
    areas
}

/// Every layout of the menu.
pub proof fn law_every_layout_of_the_menu(width: u16, height: u16, areas: MenuAreas)
    requires
        call_ensures(lay_out_menu, (width, height), areas),
    ensures
        menu_laid_out(width, height, areas),
{
}

// ---- What the operations ask for ----

/// A screen can be laid out and drawn on every terminal of up to 1094 columns, however many rows it
/// has, and on every one that leaves no room inside the margin, however wide it is.
pub proof fn law_every_such_terminal_can_be_drawn_on(
    selection: &StaticSelection,
    contents: ScreenContents,
    width: u16,
    height: u16,
    overlay: bool,
)
    ensures
        width <= 1094 || height <= 2 ==> {
            &&& call_requires(lay_out, (width, height, overlay))
            &&& call_requires(renderer, (selection, contents, width, height))
        },
        width <= 1094 || height <= 1 ==> {
            &&& call_requires(lay_out_menu, (width, height))
            &&& call_requires(menu_screen, (selection, width, height))
        },
{
}

/// The operations of the menu can be called on every menu, with every event and at every moment;
/// those of the roots on every root and every selection; and screens can be put together from
/// everything.
pub proof fn law_menu_answers_to_everything(
    menu: &mut StaticSelection,
    selection: &StaticSelection,
    event: InputEvent,
    clock: Clock,
    now: u128,
    selected: &mut SelectedRoots,
    roots: &SelectedRoots,
    root: &Root,
    value: u8,
    contents: ScreenContents,
    areas: &ScreenAreas,
    menu_areas: &MenuAreas,
    text: String,
    width: usize,
)
    ensures
        call_requires(StaticSelection::pane_left, (menu,)),
        call_requires(StaticSelection::pane_right, (menu,)),
        call_requires(StaticSelection::root_up, (menu,)),
        call_requires(StaticSelection::root_down, (menu,)),
        call_requires(StaticSelection::pane_left_at, (menu, now)),
        call_requires(StaticSelection::pane_right_at, (menu, now)),
        call_requires(StaticSelection::root_up_at, (menu, now)),
        call_requires(StaticSelection::root_down_at, (menu, now)),
        call_requires(StaticSelection::root_toggle, (menu,)),
        call_requires(StaticSelection::handle_event, (menu, event)),
        call_requires(StaticSelection::handle_event_at, (menu, event, now)),
        call_requires(StaticSelection::default_at, (clock, now)),
        call_requires(StaticSelection::generate_root_list, (selection,)),
        call_requires(StaticSelection::search_terms_selected, (selection,)),
        call_requires(SelectedRoots::toggle, (selected, root)),
        call_requires(SelectedRoots::is_selected, (roots, root)),
        call_requires(SelectedRoots::export_roots, (roots,)),
        call_requires(Root::from_u8, (value,)),
        call_requires(Root::index, (root,)),
        call_requires(Root::to_string, (root,)),
        call_requires(compose, (selection, contents, areas)),
        call_requires(compose_menu, (selection, menu_areas)),
        call_requires(pad, (text, width)),
        call_requires(time_between, (now, now)),
{
}

} // verus!
