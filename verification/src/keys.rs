//! Logical keys, and the actions that keys are bound to.

use vstd::prelude::*;
use vstd::string::*;

use crate::text;
use crate::text::{char_string, decimal_string};

verus! {

/// An editor action that a key selects.
#[derive(Debug, Clone, PartialEq, Eq)]
pub enum KeyAction {
    AlphaNumeric(char),
    Cursor(CursorDirection),
    CursorSelect(CursorDirection),
    InsertModeToggle,
    Delete,
    Backspace,
    Enter,
    Tab,
    ForceIndent,
    MarkStart,
    MarkEnd,
    MarkWholeBuffer,
    KillRegion(bool),
    KillLine(bool),
    Yank(Option<usize>),
    Escape,
    Cancel,
    Undo,
    Redo,
    DeleteWord,
    BackspaceWord,
    ToggleCapsLock,
    ToggleScrollLock,
    ChordNext,
    CommandMode,
    Save,
    Quit,
    FindFile,
    SplitHorizontal,
    SplitVertical,
    SwitchWindow,
    DeleteWindow,
    DeleteOtherWindows,
    SwitchBuffer,
    KillBuffer,
    Unbound,
    Command(String),
    Redraw,
}

/// Where a cursor movement goes.
#[derive(Debug, Clone, Copy, PartialEq, Eq, Structural)]
pub enum CursorDirection {
    Left,
    Right,
    Up,
    Down,
    LineEnd,
    LineStart,
    BufferStart,
    BufferEnd,
    PageUp,
    PageDown,
    WordForward,
    WordBackward,
    ParagraphForward,
    ParagraphBackward,
}

/// On which side of the keyboard a modifier key is.
#[derive(Debug, Clone, Copy, PartialEq, Eq, Structural, Hash)]
pub enum Side {
    Left,
    Right,
}

/// A key, free of the platform's key codes.
#[derive(Debug, Clone, Copy, PartialEq, Eq, Structural, Hash)]
pub enum LogicalKey {
    Left,
    Right,
    Up,
    Down,
    PageUp,
    PageDown,
    Function(u8),
    AlphaNumeric(char),
    Backspace,
    Enter,
    Home,
    End,
    Insert,
    Tab,
    Delete,
    Unmapped,
    CapsLock,
    ScrollLock,
    Esc,
    Modifier(KeyModifier),
}

#[derive(Debug, Clone, Copy, PartialEq, Eq, Structural, Hash)]
pub enum KeyModifier {
    Hyper(Side),
    Super(Side),
    Meta(Side),
    Control(Side),
    Shift(Side),
    Alt(Side),
    Unmapped,
}

impl KeyModifier {
    /// The letter that stands for the modifier in front of a key.
    pub open spec fn letter(&self) -> Seq<char> {
        match self {
            KeyModifier::Hyper(_) => "H"@,
            KeyModifier::Super(_) => "S"@,
            KeyModifier::Shift(_) => "S"@,
            KeyModifier::Meta(_) => "M"@,
            KeyModifier::Control(_) => "C"@,
            KeyModifier::Alt(_) => "A"@,
            KeyModifier::Unmapped => "?"@,
        }
    }
}

impl LogicalKey {
    /// What the key is called on screen.
    pub open spec fn display_name(&self) -> Seq<char> {
        match self {
            LogicalKey::Left => "←"@,
            LogicalKey::Right => "→"@,
            LogicalKey::Up => "↑"@,
            LogicalKey::Down => "↓"@,
            LogicalKey::PageUp => "PgUp"@,
            LogicalKey::PageDown => "PgDn"@,
            LogicalKey::Function(number) => "F"@ + text::decimal(*number as nat),
            LogicalKey::AlphaNumeric(character) => seq![*character],
            LogicalKey::Backspace => "⌫"@,
            LogicalKey::Enter => "⏎"@,
            LogicalKey::Home => "Home"@,
            LogicalKey::End => "End"@,
            LogicalKey::Insert => "Ins"@,
            LogicalKey::Tab => "Tab"@,
            LogicalKey::Delete => "Del"@,
            LogicalKey::Unmapped => "Unmapped"@,
            LogicalKey::CapsLock => "Caps"@,
            LogicalKey::ScrollLock => "Scroll"@,
            LogicalKey::Esc => "Esc"@,
            LogicalKey::Modifier(modifier) => modifier.letter(),
        }
    }

    /// What the key is called on screen.
    pub fn as_display_string(&self) -> (r: String)
        ensures
            r@ == self.display_name(),
    {
        match self {
            LogicalKey::Left => "←".to_owned(),
            LogicalKey::Right => "→".to_owned(),
            LogicalKey::Up => "↑".to_owned(),
            LogicalKey::Down => "↓".to_owned(),
            LogicalKey::PageUp => "PgUp".to_owned(),
            LogicalKey::PageDown => "PgDn".to_owned(),
            LogicalKey::Function(number) => {
                let mut name = "F".to_owned();
                name.append(decimal_string(*number as u64).as_str());
                name
            },
            LogicalKey::AlphaNumeric(character) => char_string(*character),
            LogicalKey::Backspace => "⌫".to_owned(),
            LogicalKey::Enter => "⏎".to_owned(),
            LogicalKey::Home => "Home".to_owned(),
            LogicalKey::End => "End".to_owned(),
            LogicalKey::Insert => "Ins".to_owned(),
            LogicalKey::Tab => "Tab".to_owned(),
            LogicalKey::Delete => "Del".to_owned(),
            LogicalKey::Unmapped => "Unmapped".to_owned(),
            LogicalKey::CapsLock => "Caps".to_owned(),
            LogicalKey::ScrollLock => "Scroll".to_owned(),
            LogicalKey::Esc => "Esc".to_owned(),
            LogicalKey::Modifier(modifier) => match modifier {
                KeyModifier::Hyper(_) => "H".to_owned(),
                KeyModifier::Super(_) => "S".to_owned(),
                KeyModifier::Shift(_) => "S".to_owned(),
                KeyModifier::Meta(_) => "M".to_owned(),
                KeyModifier::Control(_) => "C".to_owned(),
                KeyModifier::Alt(_) => "A".to_owned(),
                KeyModifier::Unmapped => "?".to_owned(),
            },
        }
    }
}

} // verus!
