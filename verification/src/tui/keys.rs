//! What the keys mean, on each of the screens.

use vstd::prelude::*;

verus! {

/// A key, as far as the screens tell keys apart.
#[derive(Debug, Clone, Copy, PartialEq, Eq, Structural)]
pub enum KeyCode {
    Backspace,
    Enter,
    Up,
    Down,
    Delete,
    Esc,
    /// A key that types a character.
    Char(char),
    /// A function key, by its number.
    F(u8),
    /// Any other key.
    Other,
}

/// What happened to a key. Some terminals report more than presses.
#[derive(Debug, Clone, Copy, PartialEq, Eq, Structural)]
pub enum KeyEventKind {
    Press,
    Repeat,
    Release,
}

/// A key event from the terminal.
#[derive(Debug, Clone, Copy, PartialEq, Eq, Structural)]
pub struct KeyEvent {
    pub code: KeyCode,
    /// The modifier keys held down, one bit each.
    pub modifiers: u8,
    pub kind: KeyEventKind,
}

/// No modifier key.
pub const NO_MODIFIER: u8 = 0;

/// The bit of the control key among the modifiers.
pub const CONTROL: u8 = 2;

/// Whether the control key is among these modifiers.
pub open spec fn with_control(modifiers: u8) -> bool {
    modifiers & CONTROL == CONTROL
}

/// `crossterm::event::KeyModifiers::contains`, asked about `CONTROL`: whether
/// the bit of the control key, the second lowest, is set.
#[verifier::external_body]
pub(crate) fn holds_control(modifiers: u8) -> (r: bool)
    ensures
        r == with_control(modifiers),
{
    crossterm::event::KeyModifiers::from_bits_retain(modifiers).contains(
        crossterm::event::KeyModifiers::CONTROL,
    )
}

impl KeyEvent {
    /// A press of a key.
    pub fn new(code: KeyCode, modifiers: u8) -> (r: KeyEvent)
        ensures
            r == (KeyEvent { code, modifiers, kind: KeyEventKind::Press }),
    {
        KeyEvent { code, modifiers, kind: KeyEventKind::Press }
    }
}

/// What a key asks the picker to do.
#[derive(Debug, Clone, Copy, PartialEq, Eq, Structural)]
pub enum Action {
    Confirm,
    Cancel,
    Up,
    Down,
    Delete,
    Backspace,
    Insert(char),
    /// Nothing: the key is not bound.
    Ignore,
}

/// What a key asks the picker to do.
pub open spec fn action_of(key: KeyEvent) -> Action {
    let ctrl = with_control(key.modifiers);
    match key.code {
        KeyCode::Enter => Action::Confirm,
        KeyCode::Esc => Action::Cancel,
        KeyCode::Down => Action::Down,
        KeyCode::Up => Action::Up,
        KeyCode::Delete => Action::Delete,
        KeyCode::Backspace => Action::Backspace,
        KeyCode::Char(c) => if !ctrl {
            Action::Insert(c)
        } else if c == 'c' || c == 'g' {
            Action::Cancel
        } else if c == 'n' {
            Action::Down
        } else if c == 'p' {
            Action::Up
        } else if c == 'd' {
            Action::Delete
        } else if c == 'h' {
            Action::Backspace
        } else {
            Action::Ignore
        },
        KeyCode::F(_) | KeyCode::Other => Action::Ignore,
    }
}

/// Maps a key to an action.
///
/// `Delete` is bound to Ctrl-D as well: on Mac keyboards the key labelled
/// "delete" sends Backspace, which the filter needs.
pub fn key_action(key: &KeyEvent) -> (r: Action)
    ensures
        r == action_of(*key),
{
    let ctrl = holds_control(key.modifiers);
    match key.code {
        KeyCode::Enter => Action::Confirm,
        KeyCode::Esc => Action::Cancel,
        KeyCode::Char('c') if ctrl => Action::Cancel,
        KeyCode::Char('g') if ctrl => Action::Cancel,
        KeyCode::Down => Action::Down,
        KeyCode::Up => Action::Up,
        KeyCode::Char('n') if ctrl => Action::Down,
        KeyCode::Char('p') if ctrl => Action::Up,
        KeyCode::Char('d') if ctrl => Action::Delete,
        KeyCode::Delete => Action::Delete,
        KeyCode::Backspace => Action::Backspace,
        // Terminals told to send 0x08 for the erase key surface it as Ctrl-H.
        KeyCode::Char('h') if ctrl => Action::Backspace,
        KeyCode::Char(c) if !ctrl => Action::Insert(c),
        _ => Action::Ignore,
    }
}

/// An answer to the confirmation dialog.
#[derive(Debug, Clone, Copy, PartialEq, Eq, Structural)]
pub enum Reply {
    Remove { with_branch: bool },
    Cancel,
}

/// The answer a key gives to the dialog, if it gives one.
pub open spec fn reply_of(key: KeyEvent, has_branch: bool) -> Option<Reply> {
    if key.kind != KeyEventKind::Press {
        None
    } else {
        match key.code {
            KeyCode::Esc => Some(Reply::Cancel),
            KeyCode::Char(c) => if c == 'y' || c == 'Y' {
                Some(Reply::Remove { with_branch: false })
            } else if (c == 'b' || c == 'B') && has_branch {
                Some(Reply::Remove { with_branch: true })
            } else if c == 'n' || c == 'N' || (c == 'c' && with_control(key.modifiers)) {
                Some(Reply::Cancel)
            } else {
                None
            },
            _ => None,
        }
    }
}

/// Reads one key as an answer. `None` means the dialog is still waiting.
pub fn reply(key: &KeyEvent, has_branch: bool) -> (r: Option<Reply>)
    ensures
        r == reply_of(*key, has_branch),
{
    // Some terminals report both press and release; act on press only.
    if key.kind != KeyEventKind::Press {
        return None;
    }
    match key.code {
        KeyCode::Char('y') | KeyCode::Char('Y') => Some(Reply::Remove { with_branch: false }),
        KeyCode::Char('b') if has_branch => Some(Reply::Remove { with_branch: true }),
        KeyCode::Char('B') if has_branch => Some(Reply::Remove { with_branch: true }),
        KeyCode::Char('n') | KeyCode::Char('N') | KeyCode::Esc => Some(Reply::Cancel),
        KeyCode::Char('c') if holds_control(key.modifiers) => Some(Reply::Cancel),
        _ => None,
    }
}

/// Without a branch, no key answers the dialog with the branch's removal.
pub proof fn law_no_branch_no_branch_removal(key: KeyEvent)
    ensures
        reply_of(key, false) != Some(Reply::Remove { with_branch: true }),
{
}

/// Only a press answers the dialog, so a release after it answers nothing.
pub proof fn law_only_a_press_answers(key: KeyEvent, has_branch: bool)
    requires
        key.kind != KeyEventKind::Press,
    ensures
        reply_of(key, has_branch) is None,
{
}

/// A key that types a character types it, whatever the character: no plain
/// letter is bound to anything else.
pub proof fn law_plain_characters_only_type(key: KeyEvent, c: char)
    requires
        key.code == KeyCode::Char(c),
        !with_control(key.modifiers),
    ensures
        action_of(key) == Action::Insert(c),
{
}

} // verus!
