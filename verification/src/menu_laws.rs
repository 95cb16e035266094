//! What holds of the menu as a whole.

use vstd::prelude::*;

use crate::clock::{gone_by, Clock};
use crate::input::{InputEvent, Key, KeyKind};
use crate::roots::{all_roots, Root};
use crate::screen::Colour;
use crate::static_selection::{
    after_in_ring, before_in_ring, StaticSelection, DEBOUNCE_NANOS, ROOT_COLUMN,
};
use crate::text::padded;

verus! {

/// The cursor stays on a pane and on a root, whatever happens.
pub proof fn law_cursor_stays_in_the_menu(selection: StaticSelection, event: InputEvent, now: u128)
    requires
        selection.well_formed(),
    ensures
        selection.after_event(event, now).well_formed(),
{
}

/// A new menu has its cursors at the beginning, and ignores moves until it is old enough.
pub proof fn law_new_menu_ignores_early_moves(
    clock: Clock,
    made: u128,
    event: InputEvent,
    now: u128,
)
    requires
        gone_by(made, now) < DEBOUNCE_NANOS,
        event.pressed() != Some(Key::Enter),
    ensures
        StaticSelection::initial(clock, made).well_formed(),
        StaticSelection::initial(clock, made).after_event(event, now) == StaticSelection::initial(
            clock,
            made,
        ),
{
}

/// In a ring, a step back and a step forward undo each other.
pub proof fn law_ring_steps_undo_each_other(at: u8, size: u8)
    requires
        at < size,
    ensures
        before_in_ring(at, size) is Some,
        after_in_ring(at, size) is Some,
        after_in_ring(before_in_ring(at, size)->0, size) == Some(at),
        before_in_ring(after_in_ring(at, size)->0, size) == Some(at),
{
}

/// Left and right undo each other where neither comes too soon: the menu is as it was, but for
/// the note of the last move.
pub proof fn law_left_and_right_undo_each_other(
    selection: StaticSelection,
    first: u128,
    second: u128,
)
    requires
        selection.well_formed(),
        gone_by(selection.pane_last_changed, first) >= DEBOUNCE_NANOS,
        gone_by(first, second) >= DEBOUNCE_NANOS,
    ensures
        selection.left_at(first).right_at(second) == (StaticSelection {
            pane_last_changed: second,
            ..selection
        }),
        selection.right_at(first).left_at(second) == (StaticSelection {
            pane_last_changed: second,
            ..selection
        }),
{
}

/// Up and down undo each other where neither comes too soon: the menu is as it was, but for the
/// note of the last move.
pub proof fn law_up_and_down_undo_each_other(
    selection: StaticSelection,
    first: u128,
    second: u128,
)
    requires
        selection.well_formed(),
        gone_by(selection.root_selection_last_changed, first) >= DEBOUNCE_NANOS,
        gone_by(first, second) >= DEBOUNCE_NANOS,
    ensures
        selection.up_at(first).down_at(second) == (StaticSelection {
            root_selection_last_changed: second,
            ..selection
        }),
        selection.down_at(first).up_at(second) == (StaticSelection {
            root_selection_last_changed: second,
            ..selection
        }),
{
}

/// Left and right share one timer, and so do up and down: after a move that was taken, one in
/// either direction that comes too soon is not.
pub proof fn law_both_directions_share_a_timer(
    selection: StaticSelection,
    first: u128,
    second: u128,
)
    requires
        selection.well_formed(),
        gone_by(first, second) < DEBOUNCE_NANOS,
    ensures
        gone_by(selection.pane_last_changed, first) >= DEBOUNCE_NANOS ==> {
            &&& selection.right_at(first).left_at(second) == selection.right_at(first)
            &&& selection.right_at(first).right_at(second) == selection.right_at(first)
            &&& selection.left_at(first).left_at(second) == selection.left_at(first)
            &&& selection.left_at(first).right_at(second) == selection.left_at(first)
        },
        gone_by(selection.root_selection_last_changed, first) >= DEBOUNCE_NANOS ==> {
            &&& selection.down_at(first).up_at(second) == selection.down_at(first)
            &&& selection.down_at(first).down_at(second) == selection.down_at(first)
            &&& selection.up_at(first).up_at(second) == selection.up_at(first)
            &&& selection.up_at(first).down_at(second) == selection.up_at(first)
        },
{
}

/// The panes and the roots have each a timer of their own: moves between panes come to the same
/// whatever the roots' cursor does and did, and the other way round.
pub proof fn law_each_cursor_has_its_own_timer(
    a: StaticSelection,
    b: StaticSelection,
    now: u128,
)
    ensures
        a.pane_selected == b.pane_selected && a.pane_last_changed == b.pane_last_changed ==> {
            &&& a.left_at(now).pane_selected == b.left_at(now).pane_selected
            &&& a.left_at(now).pane_last_changed == b.left_at(now).pane_last_changed
            &&& a.right_at(now).pane_selected == b.right_at(now).pane_selected
            &&& a.right_at(now).pane_last_changed == b.right_at(now).pane_last_changed
        },
        a.root_selected == b.root_selected && a.root_selection_last_changed
            == b.root_selection_last_changed ==> {
            &&& a.up_at(now).root_selected == b.up_at(now).root_selected
            &&& a.up_at(now).root_selection_last_changed == b.up_at(
                now,
            ).root_selection_last_changed
            &&& a.down_at(now).root_selected == b.down_at(now).root_selected
            &&& a.down_at(now).root_selection_last_changed == b.down_at(
                now,
            ).root_selection_last_changed
        },
{
}

/// The position `steps` steps after `at` in a ring.
pub open spec fn steps_after(at: u8, size: u8, steps: nat) -> Option<u8>
    decreases steps,
{
    if steps == 0 {
        Some(at)
    } else {
        match steps_after(at, size, (steps - 1) as nat) {
            Some(there) => after_in_ring(there, size),
            None => None,
        }
    }
}

/// Steps forward reach every position of a ring, and as many of them as it has positions lead
/// back.
pub proof fn law_ring_is_closed(at: u8, size: u8, steps: nat)
    requires
        at < size,
    ensures
        steps_after(at, size, steps) == Some(((at + steps) % (size as int)) as u8),
        steps_after(at, size, size as nat) == Some(at),
{
    lemma_ring_steps(at, size, steps);
    lemma_ring_steps(at, size, size as nat);
    assert((at + size) % (size as int) == at) by {
        vstd::arithmetic::div_mod::lemma_mod_add_multiples_vanish(at as int, size as int);
        vstd::arithmetic::div_mod::lemma_small_mod(at as nat, size as nat);
        assert(at + size == size + at);
    }
}

proof fn lemma_ring_steps(at: u8, size: u8, steps: nat)
    requires
        at < size,
    ensures
        steps_after(at, size, steps) == Some(((at + steps) % (size as int)) as u8),
    decreases steps,
{
    let n = size as int;
    if steps == 0 {
        vstd::arithmetic::div_mod::lemma_small_mod(at as nat, size as nat);
    } else {
        let k = (steps - 1) as nat;
        lemma_ring_steps(at, size, k);
        let there = (at + k) % n;
        vstd::arithmetic::div_mod::lemma_mod_bound(at + k, n);
        vstd::arithmetic::div_mod::lemma_add_mod_noop(at + k, 1, n);
        assert((at + steps) % n == (there + 1int % n) % n);
        if n == 1 {
            assert((there + 1int % n) % n == 0);
        } else {
            vstd::arithmetic::div_mod::lemma_small_mod(1, size as nat);
            if there + 1 < n {
                vstd::arithmetic::div_mod::lemma_small_mod((there + 1) as nat, size as nat);
            } else {
                vstd::arithmetic::div_mod::lemma_mod_self_0(n);
            }
        }
    }
}

/// A move too soon after the last one of the same cursor changes nothing.
pub proof fn law_moves_too_soon_are_ignored(selection: StaticSelection, now: u128)
    ensures
        gone_by(selection.pane_last_changed, now) < DEBOUNCE_NANOS ==> selection.left_at(now)
            == selection && selection.right_at(now) == selection,
        gone_by(selection.root_selection_last_changed, now) < DEBOUNCE_NANOS ==> selection.up_at(
            now,
        ) == selection && selection.down_at(now) == selection,
{
}

/// Only a key that is pressed does anything.
pub proof fn law_only_presses_count(selection: StaticSelection, event: InputEvent, now: u128)
    requires
        event.pressed() is None,
    ensures
        selection.after_event(event, now) == selection,
        !event.stops(),
{
}

/// No event changes more than one thing: the pane, the root under the cursor, or what is
/// enabled.
pub proof fn law_events_change_one_thing(selection: StaticSelection, event: InputEvent, now: u128)
    ensures
        ({
            let next = selection.after_event(event, now);
            let panes = next.pane_selected == selection.pane_selected && next.pane_last_changed
                == selection.pane_last_changed;
            let cursor = next.root_selected == selection.root_selected
                && next.root_selection_last_changed == selection.root_selection_last_changed;
            let enabled = next.selected_roots == selection.selected_roots;
            &&& next.control_selected == selection.control_selected
            &&& next.clock == selection.clock
            &&& (panes && cursor) || (panes && enabled) || (cursor && enabled)
        }),
{
}

/// Away from the pane of the roots, no key moves their cursor or toggles one.
pub proof fn law_roots_answer_in_their_pane_alone(
    selection: StaticSelection,
    event: InputEvent,
    now: u128,
)
    requires
        selection.pane_selected != 0,
    ensures
        selection.after_event(event, now).root_selected == selection.root_selected,
        selection.after_event(event, now).selected_roots == selection.selected_roots,
{
}

/// The line under the cursor stands out, and no other, while the pane of the roots is selected;
/// while it is not, none does.
pub proof fn law_one_line_stands_out(selection: StaticSelection, i: int)
    requires
        0 <= i < all_roots().len(),
    ensures
        selection.root_lines().len() == all_roots().len(),
        selection.root_lines()[i].colour == Some(Colour::Cyan) <==> selection.pane_selected == 0
            && i == selection.root_selected,
        selection.root_lines()[i].colour != Some(Colour::Cyan)
            ==> selection.root_lines()[i].colour == Some(Colour::White),
{
    crate::roots::law_positions_round_trip(all_roots()[i]);
}

/// What is said of the roots stands in one column, behind every name.
pub proof fn law_states_stand_in_one_column(selection: StaticSelection, root: Root)
    ensures
        padded(root.name(), ROOT_COLUMN as nat).len() == ROOT_COLUMN,
        selection.root_line(root).text.skip(ROOT_COLUMN as int) == if selection.selected_roots.has(
            root,
        ) {
            "Enabled"@
        } else {
            "Disabled"@
        },
        selection.root_line(root).text.take(root.name().len() as int) == root.name(),
{
    reveal_strlit("HKEY_CLASSES_ROOT");
    reveal_strlit("HKEY_CURRENT_USER");
    reveal_strlit("HKEY_LOCAL_MACHINE");
    reveal_strlit("HKEY_USERS");
    reveal_strlit("HKEY_CURRENT_CONFIG");
    let text = selection.root_line(root).text;
    let state = if selection.selected_roots.has(root) {
        "Enabled"@
    } else {
        "Disabled"@
    };
    assert(text.skip(ROOT_COLUMN as int) =~= state);
    assert(text.take(root.name().len() as int) =~= root.name());
}

// ---- What each key does ----

/// The time between two moments is their difference, and none where the second is not the later
/// one.
pub proof fn law_time_is_the_difference(since: u128, now: u128)
    ensures
        since <= now ==> gone_by(since, now) == now - since,
        since > now ==> gone_by(since, now) == 0,
{
}

/// In a ring of any size a step forward leads one further, and from the last position to the first;
/// a step back leads one back, and from the first to the last. There is none from outside.
pub proof fn law_ring_steps_lead_one_further(at: u8, size: u8)
    ensures
        at < size ==> {
            &&& after_in_ring(at, size) is Some && before_in_ring(at, size) is Some
            &&& after_in_ring(at, size)->0 == if at + 1 == size {
                0
            } else {
                at + 1
            }
            &&& before_in_ring(at, size)->0 == if at == 0 {
                size - 1
            } else {
                at - 1
            }
        },
        at >= size ==> after_in_ring(at, size) is None && before_in_ring(at, size) is None,
{
}

/// A move between panes is taken exactly where a tenth of a second or more has gone by since the
/// last one and the cursor is on one of the three panes. Then it leads to the next pane on its
/// side, from the last to the first and back, and is noted; otherwise nothing changes. Nothing else
/// changes either way.
pub proof fn law_panes_are_next_to_each_other(selection: StaticSelection, now: u128)
    ensures
        ({
            let taken = now - selection.pane_last_changed >= 100_000_000 && selection.pane_selected
                <= 2;
            let left = selection.left_at(now);
            let right = selection.right_at(now);
            &&& taken ==> {
                &&& left.pane_selected == (selection.pane_selected + 2) % 3
                &&& right.pane_selected == (selection.pane_selected + 1) % 3
                &&& left.pane_last_changed == now && right.pane_last_changed == now
            }
            &&& !taken ==> left == selection && right == selection
            &&& left.root_selected == selection.root_selected
            &&& right.root_selected == selection.root_selected
            &&& left.root_selection_last_changed == selection.root_selection_last_changed
            &&& right.root_selection_last_changed == selection.root_selection_last_changed
            &&& left.control_selected == selection.control_selected
            &&& right.control_selected == selection.control_selected
            &&& left.selected_roots == selection.selected_roots
            &&& right.selected_roots == selection.selected_roots
            &&& left.clock == selection.clock && right.clock == selection.clock
        }),
{
}

/// A move between roots is taken exactly where a tenth of a second or more has gone by since the
/// last one and the cursor is on one of the five roots. Then it leads to the next root on its side,
/// from the last to the first and back, and is noted; otherwise nothing changes. Nothing else
/// changes either way.
pub proof fn law_roots_are_below_each_other(selection: StaticSelection, now: u128)
    ensures
        ({
            let taken = now - selection.root_selection_last_changed >= 100_000_000
                && selection.root_selected <= 4;
            let up = selection.up_at(now);
            let down = selection.down_at(now);
            &&& taken ==> {
                &&& up.root_selected == (selection.root_selected + 4) % 5
                &&& down.root_selected == (selection.root_selected + 1) % 5
                &&& up.root_selection_last_changed == now && down.root_selection_last_changed
                    == now
            }
            &&& !taken ==> up == selection && down == selection
            &&& up.pane_selected == selection.pane_selected
            &&& down.pane_selected == selection.pane_selected
            &&& up.pane_last_changed == selection.pane_last_changed
            &&& down.pane_last_changed == selection.pane_last_changed
            &&& up.control_selected == selection.control_selected
            &&& down.control_selected == selection.control_selected
            &&& up.selected_roots == selection.selected_roots
            &&& down.selected_roots == selection.selected_roots
            &&& up.clock == selection.clock && down.clock == selection.clock
        }),
{
}

/// Toggling switches the root under the cursor to its opposite, and no other; away from the five
/// roots it switches none. Nothing else changes.
pub proof fn law_toggle_switches_the_root_under_the_cursor(selection: StaticSelection, root: Root)
    ensures
        ({
            let toggled = selection.root_toggled();
            &&& root.position() == selection.root_selected ==> toggled.selected_roots.has(root)
                == !selection.selected_roots.has(root)
            &&& root.position() != selection.root_selected ==> toggled.selected_roots.has(root)
                == selection.selected_roots.has(root)
            &&& selection.root_selected > 4 ==> toggled == selection
            &&& toggled.pane_selected == selection.pane_selected
            &&& toggled.pane_last_changed == selection.pane_last_changed
            &&& toggled.root_selected == selection.root_selected
            &&& toggled.root_selection_last_changed == selection.root_selection_last_changed
            &&& toggled.control_selected == selection.control_selected
            &&& toggled.clock == selection.clock
        }),
{
    if selection.root_selected < 5 {
        let under = all_roots()[selection.root_selected as int];
        crate::roots::law_positions_round_trip(root);
        crate::roots::law_positions_round_trip(under);
        crate::roots::law_toggle_changes_one_root(selection.selected_roots, under, root);
    }
}

/// What each key does when it is pressed: the arrows to the sides move between panes; in the pane
/// of the roots, and there alone, the other arrows move between roots and Enter toggles. No other
/// key, and no event but a press, changes anything. `q` and Escape end the program, and nothing
/// else does.
pub proof fn law_each_key_does_its_own(selection: StaticSelection, event: InputEvent, now: u128)
    ensures
        ({
            let next = selection.after_event(event, now);
            &&& event.stops() <==> {
                ||| event == InputEvent::Key { kind: KeyKind::Press, key: Key::Char('q') }
                ||| event == InputEvent::Key { kind: KeyKind::Press, key: Key::Esc }
            }
            &&& event matches InputEvent::Key { kind, key } ==> {
                &&& kind is Press && key is Left ==> next == selection.left_at(now)
                &&& kind is Press && key is Right ==> next == selection.right_at(now)
                &&& kind is Press && key is Up && selection.pane_selected == 0 ==> next
                    == selection.up_at(now)
                &&& kind is Press && key is Down && selection.pane_selected == 0 ==> next
                    == selection.down_at(now)
                &&& kind is Press && key is Enter && selection.pane_selected == 0 ==> next
                    == selection.root_toggled()
                &&& (key is Up || key is Down || key is Enter) && selection.pane_selected != 0
                    ==> next == selection
                &&& key is Char || key is Esc || key is Other ==> next == selection
                &&& !(kind is Press) ==> next == selection
            }
            &&& event is Other ==> next == selection
        }),
{
}

/// Where the clock can only give moments at which enough time has gone by since the last move
/// between panes, a press of an arrow to the side moves to the next pane. That is so for every
/// outcome of handling the event: `after` is the menu after some reading of its own clock.
pub proof fn law_late_presses_move(before: StaticSelection, after: StaticSelection, key: Key)
    requires
        before.well_formed(),
        exists|now: u128|
            before.clock.can_read(now) && after == #[trigger] before.after_event(
                InputEvent::Key { kind: KeyKind::Press, key },
                now,
            ),
    ensures
        (forall|now: u128| #[trigger]
            before.clock.can_read(now) ==> now - before.pane_last_changed >= 100_000_000) ==> {
            &&& key is Right ==> after.pane_selected == (before.pane_selected + 1) % 3
            &&& key is Left ==> after.pane_selected == (before.pane_selected + 2) % 3
        },
        before.pane_selected == 0 && (forall|now: u128| #[trigger]
            before.clock.can_read(now) ==> now - before.root_selection_last_changed
                >= 100_000_000) ==> {
            &&& key is Down ==> after.root_selected == (before.root_selected + 1) % 5
            &&& key is Up ==> after.root_selected == (before.root_selected + 4) % 5
        },
        (forall|now: u128| #[trigger]
            before.clock.can_read(now) ==> now - before.pane_last_changed < 100_000_000) && (
        key is Right || key is Left) ==> after == before,
{
}

/// A new menu is on the first pane and the first root, with the local machine and the users enabled
/// and no other root; the moment at which it was made counts as the last move of either cursor.
pub proof fn law_new_menu(clock: Clock, made: u128)
    ensures
        ({
            let menu = StaticSelection::initial(clock, made);
            &&& menu.clock == clock
            &&& menu.pane_selected == 0 && menu.root_selected == 0 && menu.control_selected == 0
            &&& menu.pane_last_changed == made && menu.root_selection_last_changed == made
            &&& menu.selected_roots.local_machine && menu.selected_roots.users
            &&& !menu.selected_roots.classes_root && !menu.selected_roots.current_user
            &&& !menu.selected_roots.current_config
        }),
{
}

/// The lines of the menu, one for each root in their order. Each has the root's name, blanks up to
/// the twenty-fifth character, and whether the root is enabled, and nothing behind that.
pub proof fn law_each_root_has_its_line(selection: StaticSelection, i: int)
    requires
        0 <= i < 5,
    ensures
        ({
            let root = all_roots()[i];
            let line = selection.root_lines()[i];
            let enabled = selection.selected_roots.has(root);
            &&& selection.root_lines().len() == 5
            &&& line.text.len() == 25 + if enabled {
                7int
            } else {
                8int
            }
            &&& root.name().len() < 25
            &&& line.text.take(root.name().len() as int) == root.name()
            &&& forall|c: int| root.name().len() <= c < 25 ==> #[trigger] line.text[c] == ' '
            &&& enabled ==> line.text.skip(25) == "Enabled"@
            &&& !enabled ==> line.text.skip(25) == "Disabled"@
            &&& line.colour == if selection.pane_selected == 0 && selection.root_selected == i {
                Some(Colour::Cyan)
            } else {
                Some(Colour::White)
            }
        }),
{
    reveal_strlit("HKEY_CLASSES_ROOT");
    reveal_strlit("HKEY_CURRENT_USER");
    reveal_strlit("HKEY_LOCAL_MACHINE");
    reveal_strlit("HKEY_USERS");
    reveal_strlit("HKEY_CURRENT_CONFIG");
    reveal_strlit("Enabled");
    reveal_strlit("Disabled");
    let root = all_roots()[i];
    let line = selection.root_lines()[i];
    crate::roots::law_positions_round_trip(root);
    assert(root.position() == i);
    assert(line.text.take(root.name().len() as int) =~= root.name());
    if selection.selected_roots.has(root) {
        assert(line.text.skip(25) =~= "Enabled"@);
    } else {
        assert(line.text.skip(25) =~= "Disabled"@);
    }
}

} // verus!
