//! What the keys of the keyboard do to the menu.

use vstd::prelude::*;

use crate::static_selection::StaticSelection;

verus! {

/// A key, as far as the menu knows it.
#[derive(Clone, Copy, Debug, PartialEq, Eq, Structural)]
pub enum Key {
    Char(char),
    Esc,
    Left,
    Right,
    Up,
    Down,
    Enter,
    Other,
}

/// What has happened to a key.
#[derive(Clone, Copy, Debug, PartialEq, Eq, Structural)]
pub enum KeyKind {
    Press,
    Repeat,
    Release,
}

/// What the terminal reports.
#[derive(Clone, Copy, Debug, PartialEq, Eq, Structural)]
pub enum InputEvent {
    /// Something has happened to a key.
    Key { kind: KeyKind, key: Key },
    /// Anything else: the mouse moved, the window changed, reading failed.
    Other,
}

impl InputEvent {
    /// The key that was pressed, where one was.
    pub open spec fn pressed(self) -> Option<Key> {
        match self {
            InputEvent::Key { kind: KeyKind::Press, key } => Some(key),
            _ => None,
        }
    }

    /// Whether the event ends the program.
    pub open spec fn stops(self) -> bool {
        self.pressed() == Some(Key::Char('q')) || self.pressed() == Some(Key::Esc)
    }
}

impl StaticSelection {
    /// The menu after an event at the moment `now`. The roots answer to the keys while their pane
    /// is selected.
    pub open spec fn after_event(self, event: InputEvent, now: u128) -> Self {
        match event.pressed() {
            Some(Key::Left) => self.left_at(now),
            Some(Key::Right) => self.right_at(now),
            Some(Key::Up) if self.pane_selected == 0 => self.up_at(now),
            Some(Key::Down) if self.pane_selected == 0 => self.down_at(now),
            Some(Key::Enter) if self.pane_selected == 0 => self.root_toggled(),
            _ => self,
        }
    }

    /// Does what an event asks for at the moment `now`. Says whether the program is to end.
    pub fn handle_event_at(&mut self, event: InputEvent, now: u128) -> (stop: bool)
        ensures
            *final(self) == old(self).after_event(event, now),
            stop == event.stops(),
    {
        match event {
            InputEvent::Key { kind: KeyKind::Press, key } => match key {
                Key::Char('q') | Key::Esc => {
                    return true;
                },
                Key::Left => self.pane_left_at(now),
                Key::Right => self.pane_right_at(now),
                Key::Up => {
                    if self.pane_selected == 0 {
                        self.root_up_at(now)
                    }
                },
                Key::Down => {
                    if self.pane_selected == 0 {
                        self.root_down_at(now)
                    }
                },
                Key::Enter => {
                    if self.pane_selected == 0 {
                        self.root_toggle()
                    }
                },
                _ => {},
            },
            _ => {},
        }
        false
    }

    /// Does what an event asks for. Says whether the program is to end.
    pub fn handle_event(&mut self, event: InputEvent) -> (stop: bool)
        ensures
            exists|now: u128|
                old(self).clock.can_read(now) && *final(self) == #[trigger] old(self).after_event(
                    event,
                    now,
                ),
            stop == event.stops(),
    {
        let now = self.clock.now();
        self.handle_event_at(event, now)
    }
}

} // verus!
