//! Which key means which action.
use vstd::prelude::*;

use crate::actions::Action;

verus! {

/// The key of a key press.
#[derive(Debug, Clone, Copy, PartialEq, Eq, Structural)]
pub enum KeyCode {
    Char(char),
    Up,
    Down,
    Left,
    Right,
    Tab,
    Enter,
    Backspace,
    Other,
}

/// A key press: the key, and whether Control was held.
#[derive(Debug, Clone, Copy, PartialEq, Eq, Structural)]
pub struct KeyEvent {
    pub code: KeyCode,
    pub control: bool,
}

/// The action of a key press: Control with `c`, `r`, `d`, `s`, `u` or `z`
/// quits, toggles the screen, downloads, downloads in sync, uploads or
/// uploads in sync; the arrows, Tab, Enter and Backspace act as named; any
/// other character is typed; other keys do nothing.
pub open spec fn key_action(key: KeyEvent) -> Option<Action> {
    match key.code {
        KeyCode::Char(c) => if key.control && c == 'c' {
            Some(Action::Quit)
        } else if key.control && c == 'r' {
            Some(Action::ToggleAppMode)
        } else if key.control && c == 'd' {
            Some(Action::Download)
        } else if key.control && c == 's' {
            Some(Action::DownloadSync)
        } else if key.control && c == 'u' {
            Some(Action::Upload)
        } else if key.control && c == 'z' {
            Some(Action::UploadSync)
        } else {
            Some(Action::Input(c))
        },
        KeyCode::Up => Some(Action::MoveUp),
        KeyCode::Down => Some(Action::MoveDown),
        KeyCode::Left => Some(Action::MoveLeft),
        KeyCode::Right => Some(Action::MoveRight),
        KeyCode::Tab => Some(Action::Tab),
        KeyCode::Enter => Some(Action::Enter),
        KeyCode::Backspace => Some(Action::Backspace),
        KeyCode::Other => None,
    }
}

/// The arrow keys, Tab, Enter and Backspace act as named, with or without
/// Control: Down moves down, Up moves up, Left and Right move left and
/// right.
pub proof fn law_named_keys(control: bool)
    ensures
        key_action(KeyEvent { code: KeyCode::Down, control }) == Some(Action::MoveDown),
        key_action(KeyEvent { code: KeyCode::Up, control }) == Some(Action::MoveUp),
        key_action(KeyEvent { code: KeyCode::Left, control }) == Some(Action::MoveLeft),
        key_action(KeyEvent { code: KeyCode::Right, control }) == Some(Action::MoveRight),
        key_action(KeyEvent { code: KeyCode::Tab, control }) == Some(Action::Tab),
        key_action(KeyEvent { code: KeyCode::Enter, control }) == Some(Action::Enter),
        key_action(KeyEvent { code: KeyCode::Backspace, control }) == Some(Action::Backspace),
        key_action(KeyEvent { code: KeyCode::Other, control }) == None::<Action>,
{
}

/// A character typed without Control is input; with Control, `c` quits,
/// `r` toggles the screen, `d` downloads, `u` uploads, `s` and `z` ask for
/// the sync transfers, and any other character is input.
pub proof fn law_character_keys(c: char)
    ensures
        key_action(KeyEvent { code: KeyCode::Char(c), control: false }) == Some(Action::Input(c)),
        key_action(KeyEvent { code: KeyCode::Char('c'), control: true }) == Some(Action::Quit),
        key_action(KeyEvent { code: KeyCode::Char('r'), control: true }) == Some(
            Action::ToggleAppMode,
        ),
        key_action(KeyEvent { code: KeyCode::Char('d'), control: true }) == Some(Action::Download),
        key_action(KeyEvent { code: KeyCode::Char('u'), control: true }) == Some(Action::Upload),
        key_action(KeyEvent { code: KeyCode::Char('s'), control: true }) == Some(
            Action::DownloadSync,
        ),
        key_action(KeyEvent { code: KeyCode::Char('z'), control: true }) == Some(
            Action::UploadSync,
        ),
        c != 'c' && c != 'r' && c != 'd' && c != 'u' && c != 's' && c != 'z' ==> key_action(
            KeyEvent { code: KeyCode::Char(c), control: true },
        ) == Some(Action::Input(c)),
{
}

/// The action of a key press (see [`key_action`]).
pub fn key_to_action(key_event: KeyEvent) -> (a: Option<Action>)
    ensures
        a == key_action(key_event),
{
    match key_event.code {
        KeyCode::Char('c') if key_event.control => Some(Action::Quit),
        KeyCode::Char('r') if key_event.control => Some(Action::ToggleAppMode),
        KeyCode::Char('d') if key_event.control => Some(Action::Download),
        KeyCode::Char('s') if key_event.control => Some(Action::DownloadSync),
        KeyCode::Char('u') if key_event.control => Some(Action::Upload),
        KeyCode::Char('z') if key_event.control => Some(Action::UploadSync),
        KeyCode::Up => Some(Action::MoveUp),
        KeyCode::Down => Some(Action::MoveDown),
        KeyCode::Left => Some(Action::MoveLeft),
        KeyCode::Right => Some(Action::MoveRight),
        KeyCode::Tab => Some(Action::Tab),
        KeyCode::Enter => Some(Action::Enter),
        KeyCode::Backspace => Some(Action::Backspace),
        KeyCode::Char(c) => Some(Action::Input(c)),
        KeyCode::Other => None,
    }
}

} // verus!
