//! Keys and what they ask for.
//!
//! A key press is bound to an intent, and the same key may be bound to one
//! intent while a line is edited and to another while it is not.

use crate::editor::EditOp;
use vstd::prelude::*;

verus! {

/// A key.
#[derive(Clone, Copy, Debug, PartialEq, Eq, Structural)]
pub enum KeyCode {
    Char(char),
    Enter,
    Esc,
    Left,
    Right,
    Up,
    Down,
    Backspace,
    Delete,
    /// Any other key.
    Other,
}

/// The modifier keys held down with a key.
#[derive(Clone, Copy, Debug, PartialEq, Eq, Structural)]
pub enum KeyModifiers {
    Plain,
    /// Shift and nothing else.
    Shift,
    /// Control and nothing else.
    Control,
    /// Any other modifier or combination.
    Other,
}

/// A key pressed with modifier keys held down.
#[derive(Clone, Copy, Debug, PartialEq, Eq, Structural)]
pub struct KeyPress {
    pub code: KeyCode,
    pub modifiers: KeyModifiers,
}

/// What the user asks for.
#[derive(Clone, Copy, Debug, PartialEq, Eq, Structural)]
pub enum Intent {
    /// One step back, and out of the calendar from the month.
    Back,
    MoveLeft,
    MoveRight,
    MoveUp,
    MoveDown,
    NextMonth,
    PreviousMonth,
    NextYear,
    PreviousYear,
    JumpToToday,
    ToggleEvents,
    ToggleTasks,
    /// Open what is selected.
    Confirm,
    /// Edit what is selected, or write a new entry if nothing is.
    StartEdit,
    /// Write a new entry.
    StartCreate,
    DeleteSelected,
    ToggleCompleted,
    ClearCompleted,
    Refresh,
    /// One editing step on the line.
    Edit(EditOp),
    CancelEdit,
    SubmitEdit,
}

/// The intent a key is bound to while no line is edited. Modifiers play no
/// part.
pub open spec fn navigation_intent(key: KeyPress) -> Option<Intent> {
    match key.code {
        KeyCode::Esc => Some(Intent::Back),
        KeyCode::Left => Some(Intent::MoveLeft),
        KeyCode::Right => Some(Intent::MoveRight),
        KeyCode::Up => Some(Intent::MoveUp),
        KeyCode::Down => Some(Intent::MoveDown),
        KeyCode::Enter => Some(Intent::Confirm),
        KeyCode::Char(c) => if c == 'q' {
            Some(Intent::Back)
        } else if c == 'h' {
            Some(Intent::MoveLeft)
        } else if c == 'l' {
            Some(Intent::MoveRight)
        } else if c == 'k' {
            Some(Intent::MoveUp)
        } else if c == 'j' {
            Some(Intent::MoveDown)
        } else if c == '>' {
            Some(Intent::NextMonth)
        } else if c == '<' {
            Some(Intent::PreviousMonth)
        } else if c == 'y' {
            Some(Intent::NextYear)
        } else if c == 'Y' {
            Some(Intent::PreviousYear)
        } else if c == 'D' {
            Some(Intent::DeleteSelected)
        } else if c == 'E' {
            Some(Intent::ToggleEvents)
        } else if c == 'T' {
            Some(Intent::ToggleTasks)
        } else if c == 't' {
            Some(Intent::JumpToToday)
        } else if c == 'R' {
            Some(Intent::Refresh)
        } else if c == 'o' {
            Some(Intent::StartCreate)
        } else if c == 'a' {
            Some(Intent::StartEdit)
        } else if c == ' ' {
            Some(Intent::ToggleCompleted)
        } else if c == 'L' {
            Some(Intent::ClearCompleted)
        } else {
            None
        },
        _ => None,
    }
}

/// The intent a key is bound to while a line is edited. A character typed
/// with no modifier or with shift goes into the line; the other bindings
/// hold for exactly the modifier they name, but for the escape key, which
/// cancels whatever is held down with it.
pub open spec fn editing_intent(key: KeyPress) -> Option<Intent> {
    let plain = key.modifiers == KeyModifiers::Plain;
    let control = key.modifiers == KeyModifiers::Control;
    match key.code {
        KeyCode::Esc => Some(Intent::CancelEdit),
        KeyCode::Char(c) => if plain || key.modifiers == KeyModifiers::Shift {
            Some(Intent::Edit(EditOp::Insert(c)))
        } else if !control {
            None
        } else if c == 'c' {
            Some(Intent::CancelEdit)
        } else if c == 'b' {
            Some(Intent::Edit(EditOp::CaretLeft))
        } else if c == 'f' {
            Some(Intent::Edit(EditOp::CaretRight))
        } else if c == 'h' {
            Some(Intent::Edit(EditOp::Backspace))
        } else if c == 'd' {
            Some(Intent::Edit(EditOp::DeleteForward))
        } else if c == 'a' {
            Some(Intent::Edit(EditOp::CaretHome))
        } else if c == 'e' {
            Some(Intent::Edit(EditOp::CaretEnd))
        } else if c == 'u' {
            Some(Intent::Edit(EditOp::DeleteToStart))
        } else if c == 'k' {
            Some(Intent::Edit(EditOp::DeleteToEnd))
        } else {
            None
        },
        KeyCode::Enter => if plain {
            Some(Intent::SubmitEdit)
        } else {
            None
        },
        KeyCode::Left => if plain {
            Some(Intent::Edit(EditOp::CaretLeft))
        } else {
            None
        },
        KeyCode::Right => if plain {
            Some(Intent::Edit(EditOp::CaretRight))
        } else {
            None
        },
        KeyCode::Backspace => if plain {
            Some(Intent::Edit(EditOp::Backspace))
        } else {
            None
        },
        KeyCode::Delete => if plain {
            Some(Intent::Edit(EditOp::DeleteForward))
        } else {
            None
        },
        _ => None,
    }
}

/// The intent a key is bound to.
pub open spec fn bound_intent(inputting: bool, key: KeyPress) -> Option<Intent> {
    if inputting {
        editing_intent(key)
    } else {
        navigation_intent(key)
    }
}

/// The intent a key is bound to while no line is edited.
pub fn bind_navigation_key(key: KeyPress) -> (intent: Option<Intent>)
    ensures
        intent == navigation_intent(key),
{
    match key.code {
        KeyCode::Esc => Some(Intent::Back),
        KeyCode::Left => Some(Intent::MoveLeft),
        KeyCode::Right => Some(Intent::MoveRight),
        KeyCode::Up => Some(Intent::MoveUp),
        KeyCode::Down => Some(Intent::MoveDown),
        KeyCode::Enter => Some(Intent::Confirm),
        KeyCode::Char(c) => if c == 'q' {
            Some(Intent::Back)
        } else if c == 'h' {
            Some(Intent::MoveLeft)
        } else if c == 'l' {
            Some(Intent::MoveRight)
        } else if c == 'k' {
            Some(Intent::MoveUp)
        } else if c == 'j' {
            Some(Intent::MoveDown)
        } else if c == '>' {
            Some(Intent::NextMonth)
        } else if c == '<' {
            Some(Intent::PreviousMonth)
        } else if c == 'y' {
            Some(Intent::NextYear)
        } else if c == 'Y' {
            Some(Intent::PreviousYear)
        } else if c == 'D' {
            Some(Intent::DeleteSelected)
        } else if c == 'E' {
            Some(Intent::ToggleEvents)
        } else if c == 'T' {
            Some(Intent::ToggleTasks)
        } else if c == 't' {
            Some(Intent::JumpToToday)
        } else if c == 'R' {
            Some(Intent::Refresh)
        } else if c == 'o' {
            Some(Intent::StartCreate)
        } else if c == 'a' {
            Some(Intent::StartEdit)
        } else if c == ' ' {
            Some(Intent::ToggleCompleted)
        } else if c == 'L' {
            Some(Intent::ClearCompleted)
        } else {
            None
        },
        _ => None,
    }
}

/// The intent a key is bound to while a line is edited.
pub fn bind_editing_key(key: KeyPress) -> (intent: Option<Intent>)
    ensures
        intent == editing_intent(key),
{
    let plain = match key.modifiers {
        KeyModifiers::Plain => true,
        _ => false,
    };
    let shift = match key.modifiers {
        KeyModifiers::Shift => true,
        _ => false,
    };
    let control = match key.modifiers {
        KeyModifiers::Control => true,
        _ => false,
    };
    match key.code {
        KeyCode::Esc => Some(Intent::CancelEdit),
        KeyCode::Char(c) => if plain || shift {
            Some(Intent::Edit(EditOp::Insert(c)))
        } else if !control {
            None
        } else if c == 'c' {
            Some(Intent::CancelEdit)
        } else if c == 'b' {
            Some(Intent::Edit(EditOp::CaretLeft))
        } else if c == 'f' {
            Some(Intent::Edit(EditOp::CaretRight))
        } else if c == 'h' {
            Some(Intent::Edit(EditOp::Backspace))
        } else if c == 'd' {
            Some(Intent::Edit(EditOp::DeleteForward))
        } else if c == 'a' {
            Some(Intent::Edit(EditOp::CaretHome))
        } else if c == 'e' {
            Some(Intent::Edit(EditOp::CaretEnd))
        } else if c == 'u' {
            Some(Intent::Edit(EditOp::DeleteToStart))
        } else if c == 'k' {
            Some(Intent::Edit(EditOp::DeleteToEnd))
        } else {
            None
        },
        KeyCode::Enter => if plain {
            Some(Intent::SubmitEdit)
        } else {
            None
        },
        KeyCode::Left => if plain {
            Some(Intent::Edit(EditOp::CaretLeft))
        } else {
            None
        },
        KeyCode::Right => if plain {
            Some(Intent::Edit(EditOp::CaretRight))
        } else {
            None
        },
        KeyCode::Backspace => if plain {
            Some(Intent::Edit(EditOp::Backspace))
        } else {
            None
        },
        KeyCode::Delete => if plain {
            Some(Intent::Edit(EditOp::DeleteForward))
        } else {
            None
        },
        _ => None,
    }
}

} // verus!
