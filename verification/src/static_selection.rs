//! The menu: which pane is selected, which root the cursor is on, and which roots are enabled.

use vstd::prelude::*;
use vstd::string::*;

use crate::clock::{gone_by, time_between, Clock};
use crate::roots::{all_roots, Root, SelectedRoots};
use crate::screen::{line_models, Colour, LineModel, StyledLine};
use crate::text::{pad, padded};

verus! {

/// For how long after a move of the cursor the next one is ignored, in nanoseconds.
pub const DEBOUNCE_NANOS: u128 = 100_000_000;

/// The number of panes.
pub const PANES: u8 = 3;

/// The number of roots.
pub const ROOTS: u8 = 5;

/// The width of the column that holds the roots' names.
pub const ROOT_COLUMN: usize = 25;

/// The position before `at` in a ring of `size` positions; a position that is not in the ring
/// has none.
pub open spec fn before_in_ring(at: u8, size: u8) -> Option<u8> {
    if at >= size {
        None
    } else if at == 0 {
        Some((size - 1) as u8)
    } else {
        Some((at - 1) as u8)
    }
}

/// The position after `at` in a ring of `size` positions; a position that is not in the ring has
/// none.
pub open spec fn after_in_ring(at: u8, size: u8) -> Option<u8> {
    if at >= size {
        None
    } else if at == size - 1 {
        Some(0)
    } else {
        Some((at + 1) as u8)
    }
}

/// The state of the menu. The moments of the last moves are those of its own clock.
#[derive(Clone, Copy, Debug)]
pub struct StaticSelection {
    pub clock: Clock,
    pub pane_selected: u8,
    pub pane_last_changed: u128,
    pub root_selected: u8,
    pub root_selection_last_changed: u128,
    pub control_selected: u8,
    pub selected_roots: SelectedRoots,
}

impl StaticSelection {
    /// The cursor is on a pane and on a root.
    pub open spec fn well_formed(self) -> bool {
        self.pane_selected < PANES && self.root_selected < ROOTS
    }

    /// A new menu, made at the moment `now`: that counts as a move of either cursor.
    pub open spec fn initial(clock: Clock, now: u128) -> Self {
        StaticSelection {
            clock,
            pane_selected: 0,
            pane_last_changed: now,
            root_selected: 0,
            root_selection_last_changed: now,
            control_selected: 0,
            selected_roots: SelectedRoots {
                classes_root: false,
                current_user: false,
                local_machine: true,
                users: true,
                current_config: false,
            },
        }
    }

    /// The menu after a move to the pane `target` at the moment `now`: nothing changes where the
    /// last move between panes was too short a time ago, or where there is no such pane.
    pub open spec fn pane_moved_at(self, target: Option<u8>, now: u128) -> Self {
        match target {
            Some(pane) if gone_by(self.pane_last_changed, now) >= DEBOUNCE_NANOS => {
                StaticSelection { pane_selected: pane, pane_last_changed: now, ..self }
            },
            _ => self,
        }
    }

    /// The menu after a move to the root `target` at the moment `now`: nothing changes where the
    /// last move between roots was too short a time ago, or where there is no such root.
    pub open spec fn root_moved_at(self, target: Option<u8>, now: u128) -> Self {
        match target {
            Some(root) if gone_by(self.root_selection_last_changed, now) >= DEBOUNCE_NANOS => {
                StaticSelection { root_selected: root, root_selection_last_changed: now, ..self }
            },
            _ => self,
        }
    }

    /// The menu after a move one pane to the left at the moment `now`.
    pub open spec fn left_at(self, now: u128) -> Self {
        self.pane_moved_at(before_in_ring(self.pane_selected, PANES), now)
    }

    /// The menu after a move one pane to the right at the moment `now`.
    pub open spec fn right_at(self, now: u128) -> Self {
        self.pane_moved_at(after_in_ring(self.pane_selected, PANES), now)
    }

    /// The menu after a move one root up at the moment `now`.
    pub open spec fn up_at(self, now: u128) -> Self {
        self.root_moved_at(before_in_ring(self.root_selected, ROOTS), now)
    }

    /// The menu after a move one root down at the moment `now`.
    pub open spec fn down_at(self, now: u128) -> Self {
        self.root_moved_at(after_in_ring(self.root_selected, ROOTS), now)
    }

    /// The menu after the root under the cursor was toggled.
    pub open spec fn root_toggled(self) -> Self {
        if self.root_selected < all_roots().len() {
            StaticSelection {
                selected_roots: self.selected_roots.toggled(all_roots()[self.root_selected as int]),
                ..self
            }
        } else {
            self
        }
    }

    /// The line of the menu for a root: its name in a column of its own, and whether it is
    /// enabled. The line under the cursor stands out while its pane is selected.
    pub open spec fn root_line(self, root: Root) -> LineModel {
        LineModel {
            text: padded(root.name(), ROOT_COLUMN as nat) + if self.selected_roots.has(root) {
                "Enabled"@
            } else {
                "Disabled"@
            },
            colour: if self.pane_selected == 0 && root.position() == self.root_selected {
                Some(Colour::Cyan)
            } else {
                Some(Colour::White)
            },
        }
    }

    /// The lines of the menu, one for each root.
    pub open spec fn root_lines(self) -> Seq<LineModel> {
        all_roots().map_values(|root: Root| self.root_line(root))
    }

    /// The lines of the menu, one for each root.
    pub fn generate_root_list(&self) -> (lines: Vec<StyledLine>)
        ensures
            line_models(lines@) == self.root_lines(),
    {
        let root_selected = self.root_selected;
        let pane_selected = self.pane_selected == 0;
        let roots = Root::iter();
        let mut lines: Vec<StyledLine> = Vec::new();
        let mut i: usize = 0;
        while i < roots.len()
            invariant
                i <= roots.len(),
                roots@ == all_roots(),
                root_selected == self.root_selected,
                pane_selected == (self.pane_selected == 0),
                lines.len() == i,
                forall|k: int| 0 <= k < i ==> (#[trigger] lines[k])@ == self.root_line(roots[k]),
            decreases roots.len() - i,
        {
            let root = roots[i];
            let state = if self.selected_roots.is_selected(&root) {
                "Enabled"
            } else {
                "Disabled"
            };
            let colour = if pane_selected && root.index() == root_selected {
                Colour::Cyan
            } else {
                Colour::White
            };
            lines.push(
                StyledLine {
                    text: pad(root.to_string(), ROOT_COLUMN).concat(state),
                    colour: Some(colour),
                },
            );
            i = i + 1;
        }
        assert(line_models(lines@) =~= self.root_lines());
        lines
    }

    /// Whether the pane of the search terms is selected.
    pub open spec fn has_search_terms_selected(self) -> bool {
        self.pane_selected == 1
    }

    /// Whether the pane of the search terms is selected.
    pub fn search_terms_selected(&self) -> (selected: bool)
        ensures
            selected == self.has_search_terms_selected(),
    {
        self.pane_selected == 1
    }

    /// Moves one pane to the left at the moment `now`, unless the last move between panes was too
    /// short a time before.
    pub fn pane_left_at(&mut self, now: u128)
        ensures
            *final(self) == old(self).left_at(now),
    {
        if time_between(self.pane_last_changed, now) < DEBOUNCE_NANOS {
            return;
        }
        let new_value: u8 = match self.pane_selected {
            0 => 2,
            1 => 0,
            2 => 1,
            _ => return,
        };
        self.pane_selected = new_value;
        self.pane_last_changed = now;
    }

    /// Moves one pane to the left, unless the last move between panes was too short a time ago.
    pub fn pane_left(&mut self)
        ensures
            exists|now: u128|
                old(self).clock.can_read(now) && *final(self) == #[trigger] old(self).left_at(now),
    {
        let now = self.clock.now();
        self.pane_left_at(now);
    }

    /// Moves one pane to the right at the moment `now`, unless the last move between panes was too
    /// short a time before.
    pub fn pane_right_at(&mut self, now: u128)
        ensures
            *final(self) == old(self).right_at(now),
    {
        if time_between(self.pane_last_changed, now) < DEBOUNCE_NANOS {
            return;
        }
        let new_value: u8 = match self.pane_selected {
            0 => 1,
            1 => 2,
            2 => 0,
            _ => return,
        };
        self.pane_selected = new_value;
        self.pane_last_changed = now;
    }

    /// Moves one pane to the right, unless the last move between panes was too short a time ago.
    pub fn pane_right(&mut self)
        ensures
            exists|now: u128|
                old(self).clock.can_read(now) && *final(self) == #[trigger] old(self).right_at(now),
    {
        let now = self.clock.now();
        self.pane_right_at(now);
    }

    /// Moves one root up at the moment `now`, unless the last move between roots was too
    /// short a time before.
    pub fn root_up_at(&mut self, now: u128)
        ensures
            *final(self) == old(self).up_at(now),
    {
        if time_between(self.root_selection_last_changed, now) < DEBOUNCE_NANOS {
            return;
        }
        let new_value: u8 = match self.root_selected {
            0 => 4,
            1 => 0,
            2 => 1,
            3 => 2,
            4 => 3,
            _ => return,
        };
        self.root_selected = new_value;
        self.root_selection_last_changed = now;
    }

    /// Moves one root up, unless the last move between roots was too short a time ago.
    pub fn root_up(&mut self)
        ensures
            exists|now: u128|
                old(self).clock.can_read(now) && *final(self) == #[trigger] old(self).up_at(now),
    {
        let now = self.clock.now();
        self.root_up_at(now);
    }

    /// Moves one root down at the moment `now`, unless the last move between roots was too
    /// short a time before.
    pub fn root_down_at(&mut self, now: u128)
        ensures
            *final(self) == old(self).down_at(now),
    {
        if time_between(self.root_selection_last_changed, now) < DEBOUNCE_NANOS {
            return;
        }
        let new_value: u8 = match self.root_selected {
            0 => 1,
            1 => 2,
            2 => 3,
            3 => 4,
            4 => 0,
            _ => return,
        };
        self.root_selected = new_value;
        self.root_selection_last_changed = now;
    }

    /// Moves one root down, unless the last move between roots was too short a time ago.
    pub fn root_down(&mut self)
        ensures
            exists|now: u128|
                old(self).clock.can_read(now) && *final(self) == #[trigger] old(self).down_at(now),
    {
        let now = self.clock.now();
        self.root_down_at(now);
    }

    /// Toggles the root under the cursor.
    pub fn root_toggle(&mut self)
        ensures
            *final(self) == old(self).root_toggled(),
    {
        let selected = self.root_selected;
        if let Some(root) = Root::from_u8(selected) {
            self.selected_roots.toggle(&root);
        }
    }

    /// A new menu, made at the moment `now` of its clock.
    pub fn default_at(clock: Clock, now: u128) -> (selection: Self)
        ensures
            selection == Self::initial(clock, now),
    {
        StaticSelection {
            clock,
            pane_selected: 0,
            pane_last_changed: now,
            root_selected: 0,
            root_selection_last_changed: now,
            control_selected: 0,
            selected_roots: SelectedRoots::default(),
        }
    }
}

impl Default for StaticSelection {
    fn default() -> (selection: Self)
        ensures
            exists|clock: Clock, now: u128|
                clock.can_read(now) && selection == #[trigger] StaticSelection::initial(clock, now),
    {
        let clock = Clock::start();
        let now = clock.now();
        StaticSelection::default_at(clock, now)
    }
}

} // verus!
