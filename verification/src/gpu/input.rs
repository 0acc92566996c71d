//! One kind of keyboard event for the terminal and for a window.
use crate::tui::event::{Event, KeyCode, KeyEvent, KeyEventKind};
use vstd::prelude::*;

verus! {

/// A key and what happened to it.
#[derive(Debug, Clone, Copy, PartialEq, Eq, Hash, Structural)]
pub struct UnifiedEvent {
    pub keycode: UnifiedKeyCode,
    pub kind: UnifiedKeyKind,
}

/// What happened to a key.
#[derive(Debug, PartialEq, Eq, Clone, Copy, Hash, Structural)]
pub enum UnifiedKeyKind {
    Press,
    Release,
    Unknown,
}

/// The keys that the renderer knows.
#[derive(Debug, PartialEq, Eq, Clone, Copy, Hash, Structural)]
pub enum UnifiedKeyCode {
    Space,
    Q,
    H,
    J,
    K,
    L,
    U,
    D,
    Shift,
    Esc,
    Left,
    Right,
    Up,
    Down,
    Unknown,
}

/// The key that a terminal's key stands for: the lower-case letters `q`,
/// `h`, `j`, `k`, `l`, `u`, `d`, the space, the escape key and the arrows;
/// every other key is unknown.
pub open spec fn unified_code(code: KeyCode) -> UnifiedKeyCode {
    match code {
        KeyCode::Char('q') => UnifiedKeyCode::Q,
        KeyCode::Char('h') => UnifiedKeyCode::H,
        KeyCode::Char('j') => UnifiedKeyCode::J,
        KeyCode::Char('k') => UnifiedKeyCode::K,
        KeyCode::Char('l') => UnifiedKeyCode::L,
        KeyCode::Char('u') => UnifiedKeyCode::U,
        KeyCode::Char('d') => UnifiedKeyCode::D,
        KeyCode::Char(' ') => UnifiedKeyCode::Space,
        KeyCode::Esc => UnifiedKeyCode::Esc,
        KeyCode::Up => UnifiedKeyCode::Up,
        KeyCode::Down => UnifiedKeyCode::Down,
        KeyCode::Left => UnifiedKeyCode::Left,
        KeyCode::Right => UnifiedKeyCode::Right,
        _ => UnifiedKeyCode::Unknown,
    }
}

/// What happened to the key: a press or a release; a repeat is unknown.
pub open spec fn unified_kind(kind: KeyEventKind) -> UnifiedKeyKind {
    match kind {
        KeyEventKind::Press => UnifiedKeyKind::Press,
        KeyEventKind::Release => UnifiedKeyKind::Release,
        KeyEventKind::Repeat => UnifiedKeyKind::Unknown,
    }
}

/// The event that a terminal's event stands for. What is no keyboard event
/// is an unknown key to which something unknown happened.
pub open spec fn unified(event: Event) -> UnifiedEvent {
    match event {
        Event::Key(key) => UnifiedEvent {
            keycode: unified_code(key.code),
            kind: unified_kind(key.kind),
        },
        Event::Other => UnifiedEvent {
            keycode: UnifiedKeyCode::Unknown,
            kind: UnifiedKeyKind::Unknown,
        },
    }
}

impl<'a> From<&'a Event> for UnifiedEvent {
    fn from(event: &'a Event) -> (unified_event: UnifiedEvent) {
        match event {
            Event::Key(KeyEvent { code, kind }) => {
                let new_code = match code {
                    KeyCode::Char(c) => {
                        if *c == 'q' {
                            UnifiedKeyCode::Q
                        } else if *c == 'h' {
                            UnifiedKeyCode::H
                        } else if *c == 'j' {
                            UnifiedKeyCode::J
                        } else if *c == 'k' {
                            UnifiedKeyCode::K
                        } else if *c == 'l' {
                            UnifiedKeyCode::L
                        } else if *c == 'u' {
                            UnifiedKeyCode::U
                        } else if *c == 'd' {
                            UnifiedKeyCode::D
                        } else if *c == ' ' {
                            UnifiedKeyCode::Space
                        } else {
                            UnifiedKeyCode::Unknown
                        }
                    },
                    KeyCode::Esc => UnifiedKeyCode::Esc,
                    KeyCode::Up => UnifiedKeyCode::Up,
                    KeyCode::Down => UnifiedKeyCode::Down,
                    KeyCode::Left => UnifiedKeyCode::Left,
                    KeyCode::Right => UnifiedKeyCode::Right,
                    KeyCode::Other => UnifiedKeyCode::Unknown,
                };
                let new_kind = match kind {
                    KeyEventKind::Press => UnifiedKeyKind::Press,
                    KeyEventKind::Release => UnifiedKeyKind::Release,
                    KeyEventKind::Repeat => UnifiedKeyKind::Unknown,
                };
                UnifiedEvent { keycode: new_code, kind: new_kind }
            },
            Event::Other => UnifiedEvent {
                keycode: UnifiedKeyCode::Unknown,
                kind: UnifiedKeyKind::Unknown,
            },
        }
    }
}

impl<'a> vstd::std_specs::convert::FromSpecImpl<&'a Event> for UnifiedEvent {
    open spec fn obeys_from_spec() -> bool {
        true
    }

    open spec fn from_spec(event: &'a Event) -> UnifiedEvent {
        unified(*event)
    }
}


/// The key of an event that presses a key, without the escape key, which
/// closes the program before any key is looked at; every other event is an
/// unknown key.
pub open spec fn pressed_code(event: Event) -> UnifiedKeyCode {
    match event {
        Event::Key(KeyEvent { code, kind: KeyEventKind::Press }) => match code {
            KeyCode::Esc => UnifiedKeyCode::Unknown,
            other => unified_code(other),
        },
        _ => UnifiedKeyCode::Unknown,
    }
}

impl From<Event> for UnifiedKeyCode {
    fn from(event: Event) -> (keycode: UnifiedKeyCode) {
        match event {
            Event::Key(KeyEvent { code, kind: KeyEventKind::Press }) => match code {
                KeyCode::Char(c) => {
                    if c == 'q' {
                        UnifiedKeyCode::Q
                    } else if c == 'h' {
                        UnifiedKeyCode::H
                    } else if c == 'j' {
                        UnifiedKeyCode::J
                    } else if c == 'k' {
                        UnifiedKeyCode::K
                    } else if c == 'l' {
                        UnifiedKeyCode::L
                    } else if c == 'u' {
                        UnifiedKeyCode::U
                    } else if c == 'd' {
                        UnifiedKeyCode::D
                    } else if c == ' ' {
                        UnifiedKeyCode::Space
                    } else {
                        UnifiedKeyCode::Unknown
                    }
                },
                KeyCode::Up => UnifiedKeyCode::Up,
                KeyCode::Down => UnifiedKeyCode::Down,
                KeyCode::Left => UnifiedKeyCode::Left,
                KeyCode::Right => UnifiedKeyCode::Right,
                _ => UnifiedKeyCode::Unknown,
            },
            _ => UnifiedKeyCode::Unknown,
        }
    }
}

impl vstd::std_specs::convert::FromSpecImpl<Event> for UnifiedKeyCode {
    open spec fn obeys_from_spec() -> bool {
        true
    }

    open spec fn from_spec(event: Event) -> UnifiedKeyCode {
        pressed_code(event)
    }
}

} // verus!
