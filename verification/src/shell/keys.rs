//! What each key does in the picker: arrows and the vi keys move the selection, Return applies
//! it, Escape puts the original wallpaper back and closes, Ctrl+P moves the picker to the next
//! edge, R rescans the folder and S jumps to a random wallpaper.
use vstd::prelude::*;

verus! {

/// A key the picker reads, as the toolkit names it.
#[derive(Debug, Clone, Copy, PartialEq, Eq, Structural)]
pub enum PickerKey {
    ControlLeft,
    ControlRight,
    Escape,
    Left,
    Up,
    Right,
    Down,
    Return,
    KeypadEnter,
    /// A key that types a character.
    Char(char),
    Other,
}

/// What a key press asks of the picker.
#[derive(Debug, Clone, Copy, PartialEq, Eq, Structural)]
pub enum KeyAction {
    /// A Control key went down; the picker remembers it and lets the press through.
    ControlDown,
    /// Put the original wallpaper back and close.
    Cancel,
    /// Move the selection one place back.
    MovePrevious,
    /// Move the selection one place on.
    MoveNext,
    /// Set the selected wallpaper.
    Apply,
    /// Move the picker to the next edge.
    CyclePlacement,
    /// Scan the folder again.
    Rescan,
    /// Jump to a random wallpaper.
    Shuffle,
    /// Not the picker's key; the press goes on to other handlers.
    Pass,
}

/// The action of a key, `control` telling whether a Control key is held (by the event's
/// modifiers or a Control press the picker saw).
pub open spec fn key_action_view(key: PickerKey, control: bool) -> KeyAction {
    match key {
        PickerKey::ControlLeft | PickerKey::ControlRight => KeyAction::ControlDown,
        PickerKey::Escape => KeyAction::Cancel,
        PickerKey::Left | PickerKey::Up => KeyAction::MovePrevious,
        PickerKey::Right | PickerKey::Down => KeyAction::MoveNext,
        PickerKey::Return | PickerKey::KeypadEnter => KeyAction::Apply,
        PickerKey::Char(c) => if c == 'h' || c == 'H' || c == 'k' || c == 'K' {
            KeyAction::MovePrevious
        } else if c == 'l' || c == 'L' || c == 'j' || c == 'J' {
            KeyAction::MoveNext
        } else if (c == 'p' || c == 'P') && control {
            KeyAction::CyclePlacement
        } else if c == 'r' || c == 'R' {
            KeyAction::Rescan
        } else if c == 's' || c == 'S' {
            KeyAction::Shuffle
        } else {
            KeyAction::Pass
        },
        PickerKey::Other => KeyAction::Pass,
    }
}

pub fn key_pressed(key: PickerKey, control: bool) -> (r: KeyAction)
    ensures
        r == key_action_view(key, control),
{
    match key {
        PickerKey::ControlLeft | PickerKey::ControlRight => KeyAction::ControlDown,
        PickerKey::Escape => KeyAction::Cancel,
        PickerKey::Left | PickerKey::Up => KeyAction::MovePrevious,
        PickerKey::Right | PickerKey::Down => KeyAction::MoveNext,
        PickerKey::Return | PickerKey::KeypadEnter => KeyAction::Apply,
        PickerKey::Char(c) => {
            if c == 'h' || c == 'H' || c == 'k' || c == 'K' {
                KeyAction::MovePrevious
            } else if c == 'l' || c == 'L' || c == 'j' || c == 'J' {
                KeyAction::MoveNext
            } else if (c == 'p' || c == 'P') && control {
                KeyAction::CyclePlacement
            } else if c == 'r' || c == 'R' {
                KeyAction::Rescan
            } else if c == 's' || c == 'S' {
                KeyAction::Shuffle
            } else {
                KeyAction::Pass
            }
        },
        PickerKey::Other => KeyAction::Pass,
    }
}

/// The picker keeps a press to itself unless it only noted a Control key or has no use for it.
pub fn stops_propagation(action: KeyAction) -> (r: bool)
    ensures
        r == !(action is ControlDown || action is Pass),
{
    match action {
        KeyAction::ControlDown | KeyAction::Pass => false,
        _ => true,
    }
}

/// Whether the picker still counts a Control key as held after `key` is let go.
pub fn control_held_after_release(key: PickerKey, held: bool) -> (r: bool)
    ensures
        r == (held && !(key is ControlLeft || key is ControlRight)),
{
    match key {
        PickerKey::ControlLeft | PickerKey::ControlRight => false,
        _ => held,
    }
}

/// A letter does the same whatever its case, and P moves the picker only with Control held.
pub proof fn lemma_letter_case_is_ignored(lower: char, upper: char, control: bool)
    requires
        (lower, upper) == ('h', 'H') || (lower, upper) == ('j', 'J') || (lower, upper) == ('k', 'K')
            || (lower, upper) == ('l', 'L') || (lower, upper) == ('p', 'P') || (lower, upper) == ('r', 'R')
            || (lower, upper) == ('s', 'S'),
    ensures
        key_action_view(PickerKey::Char(lower), control) == key_action_view(PickerKey::Char(upper), control),
        key_action_view(PickerKey::Char('p'), false) == KeyAction::Pass,
        key_action_view(PickerKey::Char('p'), true) == KeyAction::CyclePlacement,
{
}

} // verus!
