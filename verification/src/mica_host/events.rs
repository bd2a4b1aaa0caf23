//! What the policy code asks for, once it is checked, and how much of it is
//! taken at a time.

use vstd::layout;
use vstd::prelude::*;
use vstd::string::*;

use crate::ids::{BufferId, WindowId};
use crate::keys::{CursorDirection, KeyAction};
use crate::native_kernel::Capability;
use crate::text;
use crate::text::{byte_len, concat2, str_eq};
use crate::window::{OpenType, SplitDirection};

verus! {

/// The most events of a batch.
pub const MAX_BATCH_EVENTS: usize = 256;

/// The most bytes of a batch.
pub const MAX_BATCH_BYTES: usize = 4_194_304;

/// The most facts of one publication.
pub const MAX_POLICY_FACTS: usize = 256;

/// A number as far as it can be counted.
pub open spec fn countable(n: nat) -> usize {
    if n <= usize::MAX {
        n as usize
    } else {
        usize::MAX
    }
}

fn add_up(a: usize, b: usize) -> (r: usize)
    ensures
        r == countable((a + b) as nat),
{
    a.saturating_add(b)
}

fn times(a: usize, b: usize) -> (r: usize)
    ensures
        r == countable((a * b) as nat),
{
    proof {
        assert(a * b <= 0xffff_ffff_ffff_ffff * 0xffff_ffff_ffff_ffff) by (nonlinear_arith)
            requires
                0 <= a <= 0xffff_ffff_ffff_ffff,
                0 <= b <= 0xffff_ffff_ffff_ffff,
        ;
        assert(0 <= a * b) by (nonlinear_arith)
            requires
                0 <= a,
                0 <= b,
        ;
    }
    let product: u128 = (a as u128) * (b as u128);
    if product <= usize::MAX as u128 {
        product as usize
    } else {
        usize::MAX
    }
}

/// What the host is asked to do.
#[derive(Debug)]
pub enum MicaHostAction {
    AgentOpen { view: WindowId, name: String, text: String },
    AgentUpdate { buffer: BufferId, text: String },
    StartAgent,
    ShowTypeout { view: WindowId, buffer: BufferId, kind: String, title: String, text: String },
    DismissTypeout,
    PageTypeout { forward: bool },
    Echo(String),
    Quit,
    Redraw,
    Split { view: WindowId, direction: SplitDirection },
    SelectView { view: WindowId },
    DeleteView { view: WindowId },
    CollapseToView { view: WindowId },
    BeginLayoutDrag { view: WindowId },
    PointerDown { view: WindowId, position: usize, anchor: usize },
    PointerMove { view: WindowId, position: usize, anchor: usize },
    PointerUp,
    Scroll { view: WindowId, line: usize, column: usize },
    SplitRatio {
        path: Vec<usize>,
        /// The bits of a single-precision number.
        ratio: u32,
    },
    InvalidateSyntax { view: WindowId },
    Indent {
        view: WindowId,
        buffer: BufferId,
        revision: u64,
        newline: bool,
        width: usize,
        tab_width: usize,
    },
    Save { buffer: BufferId },
    SaveAs { buffer: BufferId, path: String },
    CreateBuffer { view: WindowId, name: String },
    EvalRegion { buffer: BufferId, view: WindowId },
    EvalBuffer { buffer: BufferId, unit: String },
    SelectBuffer { buffer: BufferId },
    KillBuffer { buffer: BufferId, replacement: BufferId },
    OpenFile { path: String, kind: OpenType },
}

impl MicaHostAction {
    /// The bytes that the action holds besides itself.
    pub open spec fn heap(&self) -> nat {
        match self {
            MicaHostAction::AgentOpen { name, text, .. } => text::utf8_len(name@)
                + text::utf8_len(text@),
            MicaHostAction::AgentUpdate { text, .. } => text::utf8_len(text@),
            MicaHostAction::Echo(text) => text::utf8_len(text@),
            MicaHostAction::ShowTypeout { kind, title, text, .. } => text::utf8_len(kind@)
                + text::utf8_len(title@) + text::utf8_len(text@),
            MicaHostAction::SaveAs { path, .. } => text::utf8_len(path@),
            MicaHostAction::OpenFile { path, .. } => text::utf8_len(path@),
            MicaHostAction::CreateBuffer { name, .. } => text::utf8_len(name@),
            MicaHostAction::EvalBuffer { unit, .. } => text::utf8_len(unit@),
            MicaHostAction::SplitRatio { path, .. } => path@.len() * layout::size_of::<usize>(),
            _ => 0,
        }
    }

    /// The bytes that the action holds besides itself.
    pub fn heap_bytes(&self) -> (r: usize)
        ensures
            r == countable(self.heap()),
    {
        match self {
            MicaHostAction::AgentOpen { view: _, name, text } => add_up(
                byte_len(name.as_str()),
                byte_len(text.as_str()),
            ),
            MicaHostAction::AgentUpdate { buffer: _, text } => byte_len(text.as_str()),
            MicaHostAction::Echo(text) => byte_len(text.as_str()),
            MicaHostAction::ShowTypeout { view: _, buffer: _, kind, title, text } => add_up(
                add_up(byte_len(kind.as_str()), byte_len(title.as_str())),
                byte_len(text.as_str()),
            ),
            MicaHostAction::SaveAs { buffer: _, path } => byte_len(path.as_str()),
            MicaHostAction::OpenFile { path, kind: _ } => byte_len(path.as_str()),
            MicaHostAction::CreateBuffer { view: _, name } => byte_len(name.as_str()),
            MicaHostAction::EvalBuffer { buffer: _, unit } => byte_len(unit.as_str()),
            MicaHostAction::SplitRatio { path, ratio: _ } => times(
                path.len(),
                core::mem::size_of::<usize>(),
            ),
            _ => 0,
        }
    }
}

/// An edit that is asked for.
#[derive(Debug, Clone, PartialEq, Eq)]
pub enum MicaNativeAction {
    InsertText(String),
    Move { direction: CursorDirection, selecting: bool },
    Backspace,
    Delete,
    Enter,
    Tab,
    KillLine,
    KillRegion,
    CopyRegion,
    Yank,
    KillWord { forward: bool },
    SetMark,
    MarkWholeBuffer,
    Cancel,
    Undo,
    Redo,
}

/// The edit with a name that needs no text.
pub open spec fn edit_named(name: Seq<char>) -> Option<MicaNativeAction> {
    if name == "cursor_left"@ {
        Some(MicaNativeAction::Move { direction: CursorDirection::Left, selecting: false })
    } else if name == "cursor_right"@ {
        Some(MicaNativeAction::Move { direction: CursorDirection::Right, selecting: false })
    } else if name == "cursor_up"@ {
        Some(MicaNativeAction::Move { direction: CursorDirection::Up, selecting: false })
    } else if name == "cursor_down"@ {
        Some(MicaNativeAction::Move { direction: CursorDirection::Down, selecting: false })
    } else if name == "cursor_line_start"@ {
        Some(MicaNativeAction::Move { direction: CursorDirection::LineStart, selecting: false })
    } else if name == "cursor_line_end"@ {
        Some(MicaNativeAction::Move { direction: CursorDirection::LineEnd, selecting: false })
    } else if name == "cursor_buffer_start"@ {
        Some(MicaNativeAction::Move { direction: CursorDirection::BufferStart, selecting: false })
    } else if name == "cursor_buffer_end"@ {
        Some(MicaNativeAction::Move { direction: CursorDirection::BufferEnd, selecting: false })
    } else if name == "cursor_page_up"@ {
        Some(MicaNativeAction::Move { direction: CursorDirection::PageUp, selecting: false })
    } else if name == "cursor_page_down"@ {
        Some(MicaNativeAction::Move { direction: CursorDirection::PageDown, selecting: false })
    } else if name == "cursor_word_forward"@ {
        Some(MicaNativeAction::Move { direction: CursorDirection::WordForward, selecting: false })
    } else if name == "cursor_word_backward"@ {
        Some(MicaNativeAction::Move { direction: CursorDirection::WordBackward, selecting: false })
    } else if name == "cursor_paragraph_forward"@ {
        Some(MicaNativeAction::Move { direction: CursorDirection::ParagraphForward, selecting: false })
    } else if name == "cursor_paragraph_backward"@ {
        Some(MicaNativeAction::Move { direction: CursorDirection::ParagraphBackward, selecting: false })
    } else if name == "cursor_left_select"@ {
        Some(MicaNativeAction::Move { direction: CursorDirection::Left, selecting: true })
    } else if name == "cursor_right_select"@ {
        Some(MicaNativeAction::Move { direction: CursorDirection::Right, selecting: true })
    } else if name == "cursor_up_select"@ {
        Some(MicaNativeAction::Move { direction: CursorDirection::Up, selecting: true })
    } else if name == "cursor_down_select"@ {
        Some(MicaNativeAction::Move { direction: CursorDirection::Down, selecting: true })
    } else if name == "cursor_line_start_select"@ {
        Some(MicaNativeAction::Move { direction: CursorDirection::LineStart, selecting: true })
    } else if name == "cursor_line_end_select"@ {
        Some(MicaNativeAction::Move { direction: CursorDirection::LineEnd, selecting: true })
    } else if name == "cursor_buffer_start_select"@ {
        Some(MicaNativeAction::Move { direction: CursorDirection::BufferStart, selecting: true })
    } else if name == "cursor_buffer_end_select"@ {
        Some(MicaNativeAction::Move { direction: CursorDirection::BufferEnd, selecting: true })
    } else if name == "cursor_page_up_select"@ {
        Some(MicaNativeAction::Move { direction: CursorDirection::PageUp, selecting: true })
    } else if name == "cursor_page_down_select"@ {
        Some(MicaNativeAction::Move { direction: CursorDirection::PageDown, selecting: true })
    } else if name == "cursor_word_forward_select"@ {
        Some(MicaNativeAction::Move { direction: CursorDirection::WordForward, selecting: true })
    } else if name == "cursor_word_backward_select"@ {
        Some(MicaNativeAction::Move { direction: CursorDirection::WordBackward, selecting: true })
    } else if name == "backspace"@ {
        Some(MicaNativeAction::Backspace)
    } else if name == "delete"@ {
        Some(MicaNativeAction::Delete)
    } else if name == "enter"@ {
        Some(MicaNativeAction::Enter)
    } else if name == "tab"@ {
        Some(MicaNativeAction::Tab)
    } else if name == "kill_line"@ {
        Some(MicaNativeAction::KillLine)
    } else if name == "kill_region"@ {
        Some(MicaNativeAction::KillRegion)
    } else if name == "copy_region"@ {
        Some(MicaNativeAction::CopyRegion)
    } else if name == "yank"@ {
        Some(MicaNativeAction::Yank)
    } else if name == "kill_word"@ {
        Some(MicaNativeAction::KillWord { forward: true })
    } else if name == "backward_kill_word"@ {
        Some(MicaNativeAction::KillWord { forward: false })
    } else if name == "set_mark"@ {
        Some(MicaNativeAction::SetMark)
    } else if name == "mark_whole_buffer"@ {
        Some(MicaNativeAction::MarkWholeBuffer)
    } else if name == "cancel"@ {
        Some(MicaNativeAction::Cancel)
    } else if name == "escape"@ {
        Some(MicaNativeAction::Cancel)
    } else if name == "undo"@ {
        Some(MicaNativeAction::Undo)
    } else if name == "redo"@ {
        Some(MicaNativeAction::Redo)
    } else {
        None
    }
}

fn edit_with_name(name: &str) -> (r: Option<MicaNativeAction>)
    ensures
        r == edit_named(name@),
{
    if str_eq(name, "cursor_left") {
        Some(MicaNativeAction::Move { direction: CursorDirection::Left, selecting: false })
    } else if str_eq(name, "cursor_right") {
        Some(MicaNativeAction::Move { direction: CursorDirection::Right, selecting: false })
    } else if str_eq(name, "cursor_up") {
        Some(MicaNativeAction::Move { direction: CursorDirection::Up, selecting: false })
    } else if str_eq(name, "cursor_down") {
        Some(MicaNativeAction::Move { direction: CursorDirection::Down, selecting: false })
    } else if str_eq(name, "cursor_line_start") {
        Some(MicaNativeAction::Move { direction: CursorDirection::LineStart, selecting: false })
    } else if str_eq(name, "cursor_line_end") {
        Some(MicaNativeAction::Move { direction: CursorDirection::LineEnd, selecting: false })
    } else if str_eq(name, "cursor_buffer_start") {
        Some(MicaNativeAction::Move { direction: CursorDirection::BufferStart, selecting: false })
    } else if str_eq(name, "cursor_buffer_end") {
        Some(MicaNativeAction::Move { direction: CursorDirection::BufferEnd, selecting: false })
    } else if str_eq(name, "cursor_page_up") {
        Some(MicaNativeAction::Move { direction: CursorDirection::PageUp, selecting: false })
    } else if str_eq(name, "cursor_page_down") {
        Some(MicaNativeAction::Move { direction: CursorDirection::PageDown, selecting: false })
    } else if str_eq(name, "cursor_word_forward") {
        Some(MicaNativeAction::Move { direction: CursorDirection::WordForward, selecting: false })
    } else if str_eq(name, "cursor_word_backward") {
        Some(MicaNativeAction::Move { direction: CursorDirection::WordBackward, selecting: false })
    } else if str_eq(name, "cursor_paragraph_forward") {
        Some(MicaNativeAction::Move { direction: CursorDirection::ParagraphForward, selecting: false })
    } else if str_eq(name, "cursor_paragraph_backward") {
        Some(MicaNativeAction::Move { direction: CursorDirection::ParagraphBackward, selecting: false })
    } else if str_eq(name, "cursor_left_select") {
        Some(MicaNativeAction::Move { direction: CursorDirection::Left, selecting: true })
    } else if str_eq(name, "cursor_right_select") {
        Some(MicaNativeAction::Move { direction: CursorDirection::Right, selecting: true })
    } else if str_eq(name, "cursor_up_select") {
        Some(MicaNativeAction::Move { direction: CursorDirection::Up, selecting: true })
    } else if str_eq(name, "cursor_down_select") {
        Some(MicaNativeAction::Move { direction: CursorDirection::Down, selecting: true })
    } else if str_eq(name, "cursor_line_start_select") {
        Some(MicaNativeAction::Move { direction: CursorDirection::LineStart, selecting: true })
    } else if str_eq(name, "cursor_line_end_select") {
        Some(MicaNativeAction::Move { direction: CursorDirection::LineEnd, selecting: true })
    } else if str_eq(name, "cursor_buffer_start_select") {
        Some(MicaNativeAction::Move { direction: CursorDirection::BufferStart, selecting: true })
    } else if str_eq(name, "cursor_buffer_end_select") {
        Some(MicaNativeAction::Move { direction: CursorDirection::BufferEnd, selecting: true })
    } else if str_eq(name, "cursor_page_up_select") {
        Some(MicaNativeAction::Move { direction: CursorDirection::PageUp, selecting: true })
    } else if str_eq(name, "cursor_page_down_select") {
        Some(MicaNativeAction::Move { direction: CursorDirection::PageDown, selecting: true })
    } else if str_eq(name, "cursor_word_forward_select") {
        Some(MicaNativeAction::Move { direction: CursorDirection::WordForward, selecting: true })
    } else if str_eq(name, "cursor_word_backward_select") {
        Some(MicaNativeAction::Move { direction: CursorDirection::WordBackward, selecting: true })
    } else if str_eq(name, "backspace") {
        Some(MicaNativeAction::Backspace)
    } else if str_eq(name, "delete") {
        Some(MicaNativeAction::Delete)
    } else if str_eq(name, "enter") {
        Some(MicaNativeAction::Enter)
    } else if str_eq(name, "tab") {
        Some(MicaNativeAction::Tab)
    } else if str_eq(name, "kill_line") {
        Some(MicaNativeAction::KillLine)
    } else if str_eq(name, "kill_region") {
        Some(MicaNativeAction::KillRegion)
    } else if str_eq(name, "copy_region") {
        Some(MicaNativeAction::CopyRegion)
    } else if str_eq(name, "yank") {
        Some(MicaNativeAction::Yank)
    } else if str_eq(name, "kill_word") {
        Some(MicaNativeAction::KillWord { forward: true })
    } else if str_eq(name, "backward_kill_word") {
        Some(MicaNativeAction::KillWord { forward: false })
    } else if str_eq(name, "set_mark") {
        Some(MicaNativeAction::SetMark)
    } else if str_eq(name, "mark_whole_buffer") {
        Some(MicaNativeAction::MarkWholeBuffer)
    } else if str_eq(name, "cancel") {
        Some(MicaNativeAction::Cancel)
    } else if str_eq(name, "escape") {
        Some(MicaNativeAction::Cancel)
    } else if str_eq(name, "undo") {
        Some(MicaNativeAction::Undo)
    } else if str_eq(name, "redo") {
        Some(MicaNativeAction::Redo)
    } else {
        None
    }
}

impl MicaNativeAction {
    pub open spec fn labelled(&self) -> Seq<char> {
        match self {
            MicaNativeAction::InsertText(_) => "insert_text"@,
            MicaNativeAction::Move { .. } => "move_cursor"@,
            MicaNativeAction::Backspace => "backspace"@,
            MicaNativeAction::Delete => "delete"@,
            MicaNativeAction::Enter => "enter"@,
            MicaNativeAction::Tab => "tab"@,
            MicaNativeAction::KillLine => "kill_line"@,
            MicaNativeAction::KillRegion => "kill_region"@,
            MicaNativeAction::CopyRegion => "copy_region"@,
            MicaNativeAction::Yank => "yank"@,
            MicaNativeAction::KillWord { forward } => if *forward {
                "kill_word"@
            } else {
                "backward_kill_word"@
            },
            MicaNativeAction::SetMark => "set_mark"@,
            MicaNativeAction::MarkWholeBuffer => "mark_whole_buffer"@,
            MicaNativeAction::Cancel => "cancel"@,
            MicaNativeAction::Undo => "undo"@,
            MicaNativeAction::Redo => "redo"@,
        }
    }

    /// What the edit is called.
    pub fn label(&self) -> (r: &'static str)
        ensures
            r@ == self.labelled(),
    {
        match self {
            MicaNativeAction::InsertText(_) => "insert_text",
            MicaNativeAction::Move { .. } => "move_cursor",
            MicaNativeAction::Backspace => "backspace",
            MicaNativeAction::Delete => "delete",
            MicaNativeAction::Enter => "enter",
            MicaNativeAction::Tab => "tab",
            MicaNativeAction::KillLine => "kill_line",
            MicaNativeAction::KillRegion => "kill_region",
            MicaNativeAction::CopyRegion => "copy_region",
            MicaNativeAction::Yank => "yank",
            MicaNativeAction::KillWord { forward } => if *forward {
                "kill_word"
            } else {
                "backward_kill_word"
            },
            MicaNativeAction::SetMark => "set_mark",
            MicaNativeAction::MarkWholeBuffer => "mark_whole_buffer",
            MicaNativeAction::Cancel => "cancel",
            MicaNativeAction::Undo => "undo",
            MicaNativeAction::Redo => "redo",
        }
    }

    /// Whether `r` is the edit with a name, or why there is none.
    pub open spec fn decoded(
        name: Seq<char>,
        text: Option<String>,
        r: Result<MicaNativeAction, String>,
    ) -> bool {
        if name == "insert_text"@ {
            match text {
                Some(t) => r matches Ok(MicaNativeAction::InsertText(s)) && s == t,
                None => r matches Err(m) && m@ == "Mica insert_text requires text"@,
            }
        } else {
            match edit_named(name) {
                Some(action) => r matches Ok(a) && a == action,
                None => r matches Err(m) && m@ == "unknown Mica native action: "@ + name,
            }
        }
    }

    /// The edit with a name.
    pub fn decode(name: &str, text: Option<String>) -> (r: Result<Self, String>)
        ensures
            Self::decoded(name@, text, r),
    {
        if str_eq(name, "insert_text") {
            return match text {
                Some(text) => Ok(MicaNativeAction::InsertText(text)),
                None => Err("Mica insert_text requires text".to_owned()),
            };
        }
        match edit_with_name(name) {
            Some(action) => Ok(action),
            None => Err(concat2("unknown Mica native action: ", name)),
        }
    }

    /// What must have been granted for the edit.
    pub open spec fn needs(&self) -> Option<Capability> {
        match self {
            MicaNativeAction::CopyRegion => Some(Capability::TextRead),
            MicaNativeAction::SetMark => Some(Capability::TextRead),
            MicaNativeAction::MarkWholeBuffer => Some(Capability::TextRead),
            MicaNativeAction::Move { .. } => Some(Capability::TextRead),
            MicaNativeAction::Cancel => None,
            _ => Some(Capability::TextWrite),
        }
    }

    /// What must have been granted for the edit.
    pub fn capabilities(&self) -> (r: Vec<Capability>)
        ensures
            r@ == match self.needs() {
                Some(c) => seq![c],
                None => Seq::<Capability>::empty(),
            },
    {
        match self {
            MicaNativeAction::CopyRegion => vec![Capability::TextRead],
            MicaNativeAction::SetMark => vec![Capability::TextRead],
            MicaNativeAction::MarkWholeBuffer => vec![Capability::TextRead],
            MicaNativeAction::Move { .. } => vec![Capability::TextRead],
            MicaNativeAction::Cancel => Vec::new(),
            _ => vec![Capability::TextWrite],
        }
    }

    /// Whether the edit puts something on the clipboard.
    pub fn writes_clipboard(&self) -> (r: bool)
        ensures
            r == (self is KillLine || self is KillRegion || self is CopyRegion
                || self is KillWord),
    {
        match self {
            MicaNativeAction::KillLine => true,
            MicaNativeAction::KillRegion => true,
            MicaNativeAction::CopyRegion => true,
            MicaNativeAction::KillWord { .. } => true,
            _ => false,
        }
    }

    /// The key action that does the edit. The edits on words need to know what a
    /// word is, and inserted text is none.
    pub open spec fn key_action(&self) -> Option<KeyAction> {
        match self {
            MicaNativeAction::Move { direction, selecting } => if *direction
                == CursorDirection::WordForward || *direction == CursorDirection::WordBackward {
                None
            } else if *selecting {
                Some(KeyAction::CursorSelect(*direction))
            } else {
                Some(KeyAction::Cursor(*direction))
            },
            MicaNativeAction::KillWord { .. } => None,
            MicaNativeAction::InsertText(_) => None,
            MicaNativeAction::Backspace => Some(KeyAction::Backspace),
            MicaNativeAction::Delete => Some(KeyAction::Delete),
            MicaNativeAction::Enter => Some(KeyAction::Enter),
            MicaNativeAction::Tab => Some(KeyAction::Tab),
            MicaNativeAction::KillLine => Some(KeyAction::KillLine(false)),
            MicaNativeAction::KillRegion => Some(KeyAction::KillRegion(true)),
            MicaNativeAction::CopyRegion => Some(KeyAction::KillRegion(false)),
            MicaNativeAction::Yank => Some(KeyAction::Yank(None)),
            MicaNativeAction::SetMark => Some(KeyAction::MarkStart),
            MicaNativeAction::MarkWholeBuffer => Some(KeyAction::MarkWholeBuffer),
            MicaNativeAction::Cancel => Some(KeyAction::Cancel),
            MicaNativeAction::Undo => Some(KeyAction::Undo),
            MicaNativeAction::Redo => Some(KeyAction::Redo),
        }
    }

    /// The key action that does the edit.
    pub fn into_key_action(self) -> (r: Option<KeyAction>)
        ensures
            r == self.key_action(),
    {
        match self {
            MicaNativeAction::Move { direction, selecting } => {
                if direction == CursorDirection::WordForward || direction
                    == CursorDirection::WordBackward {
                    None
                } else if selecting {
                    Some(KeyAction::CursorSelect(direction))
                } else {
                    Some(KeyAction::Cursor(direction))
                }
            },
            MicaNativeAction::KillWord { .. } => None,
            MicaNativeAction::InsertText(_) => None,
            MicaNativeAction::Backspace => Some(KeyAction::Backspace),
            MicaNativeAction::Delete => Some(KeyAction::Delete),
            MicaNativeAction::Enter => Some(KeyAction::Enter),
            MicaNativeAction::Tab => Some(KeyAction::Tab),
            MicaNativeAction::KillLine => Some(KeyAction::KillLine(false)),
            MicaNativeAction::KillRegion => Some(KeyAction::KillRegion(true)),
            MicaNativeAction::CopyRegion => Some(KeyAction::KillRegion(false)),
            MicaNativeAction::Yank => Some(KeyAction::Yank(None)),
            MicaNativeAction::SetMark => Some(KeyAction::MarkStart),
            MicaNativeAction::MarkWholeBuffer => Some(KeyAction::MarkWholeBuffer),
            MicaNativeAction::Cancel => Some(KeyAction::Cancel),
            MicaNativeAction::Undo => Some(KeyAction::Undo),
            MicaNativeAction::Redo => Some(KeyAction::Redo),
        }
    }
}

/// How captures of a grammar are shown.
#[derive(Debug, Clone, PartialEq, Eq)]
pub struct HighlightRule {
    pub capture: String,
    pub face: String,
    pub precedence: i64,
}

/// A fact that the policy code publishes.
#[derive(Debug)]
pub enum MicaPolicyFact {
    Parser { mode: String, grammar: String, query: String },
    Injection { mode: String, grammar: String, query: String, highlights: String },
    Indentation { mode: String, query: String, anchor: String, offset: i64, precedence: i64 },
    Mode { buffer: BufferId, name: String },
    Face { name: String, attribute: String, value: String },
    Configuration { key: String, value: String },
    Syntax { buffer: BufferId, kind: String, pattern: String, precedence: i64 },
    Highlight { mode: String, capture: String, face: String, precedence: i64 },
    Highlights { buffer: BufferId, rules: Vec<HighlightRule> },
}

/// The bytes that rules hold.
pub open spec fn rules_heap(rules: Seq<HighlightRule>) -> nat
    decreases rules.len(),
{
    if rules.len() == 0 {
        0
    } else {
        rules_heap(rules.drop_last()) + layout::size_of::<HighlightRule>() + text::utf8_len(
            rules.last().capture@,
        ) + text::utf8_len(rules.last().face@)
    }
}

fn rules_bytes(rules: &Vec<HighlightRule>) -> (r: usize)
    ensures
        r == countable(rules_heap(rules@)),
{
    let mut total: usize = 0;
    let mut i: usize = 0;
    assert(rules@.take(0) =~= seq![]);
    while i < rules.len()
        invariant
            i <= rules@.len(),
            total == countable(rules_heap(rules@.take(i as int))),
        decreases rules.len() - i,
    {
        assert(rules@.take(i + 1).drop_last() =~= rules@.take(i as int));
        assert(rules@.take(i + 1).last() == rules@[i as int]);
        total = add_up(
            add_up(
                add_up(total, core::mem::size_of::<HighlightRule>()),
                byte_len(rules[i].capture.as_str()),
            ),
            byte_len(rules[i].face.as_str()),
        );
        i = i + 1;
    }
    assert(rules@.take(i as int) =~= rules@);
    total
}

fn bytes3(a: &str, b: &str, c: &str) -> (r: usize)
    ensures
        r == countable(text::utf8_len(a@) + text::utf8_len(b@) + text::utf8_len(c@)),
{
    add_up(add_up(byte_len(a), byte_len(b)), byte_len(c))
}

impl MicaPolicyFact {
    /// The bytes that the fact holds besides itself.
    pub open spec fn heap(&self) -> nat {
        match self {
            MicaPolicyFact::Parser { mode, grammar, query } => text::utf8_len(mode@)
                + text::utf8_len(grammar@) + text::utf8_len(query@),
            MicaPolicyFact::Injection { mode, grammar, query, highlights } => text::utf8_len(mode@)
                + text::utf8_len(grammar@) + text::utf8_len(query@) + text::utf8_len(highlights@),
            MicaPolicyFact::Indentation { mode, query, anchor, .. } => text::utf8_len(mode@)
                + text::utf8_len(query@) + text::utf8_len(anchor@),
            MicaPolicyFact::Mode { name, .. } => text::utf8_len(name@),
            MicaPolicyFact::Face { name, attribute, value } => text::utf8_len(name@)
                + text::utf8_len(attribute@) + text::utf8_len(value@),
            MicaPolicyFact::Configuration { key, value } => text::utf8_len(key@)
                + text::utf8_len(value@),
            MicaPolicyFact::Syntax { kind, pattern, .. } => text::utf8_len(kind@)
                + text::utf8_len(pattern@),
            MicaPolicyFact::Highlight { mode, capture, face, .. } => text::utf8_len(mode@)
                + text::utf8_len(capture@) + text::utf8_len(face@),
            MicaPolicyFact::Highlights { rules, .. } => rules_heap(rules@),
        }
    }

    /// The bytes that the fact holds besides itself.
    pub fn heap_bytes(&self) -> (r: usize)
        ensures
            r == countable(self.heap()),
    {
        match self {
            MicaPolicyFact::Parser { mode, grammar, query } => bytes3(
                mode.as_str(),
                grammar.as_str(),
                query.as_str(),
            ),
            MicaPolicyFact::Injection { mode, grammar, query, highlights } => add_up(
                bytes3(mode.as_str(), grammar.as_str(), query.as_str()),
                byte_len(highlights.as_str()),
            ),
            MicaPolicyFact::Indentation { mode, query, anchor, offset: _, precedence: _ } => bytes3(
                mode.as_str(),
                query.as_str(),
                anchor.as_str(),
            ),
            MicaPolicyFact::Mode { buffer: _, name } => byte_len(name.as_str()),
            MicaPolicyFact::Face { name, attribute, value } => bytes3(
                name.as_str(),
                attribute.as_str(),
                value.as_str(),
            ),
            MicaPolicyFact::Configuration { key, value } => add_up(
                byte_len(key.as_str()),
                byte_len(value.as_str()),
            ),
            MicaPolicyFact::Syntax { buffer: _, kind, pattern, precedence: _ } => add_up(
                byte_len(kind.as_str()),
                byte_len(pattern.as_str()),
            ),
            MicaPolicyFact::Highlight { mode, capture, face, precedence: _ } => bytes3(
                mode.as_str(),
                capture.as_str(),
                face.as_str(),
            ),
            MicaPolicyFact::Highlights { buffer: _, rules } => rules_bytes(rules),
        }
    }
}

/// What is shown of a view has changed.
#[derive(Debug, Clone, Copy, PartialEq, Eq, Structural)]
pub struct MicaPresentationEffect {
    pub buffer: BufferId,
    pub view: WindowId,
    pub cursor: usize,
}

/// A prompt to be shown.
#[derive(Debug, Clone, PartialEq, Eq)]
pub struct MicaPromptUpdate {
    pub prefix: String,
    pub query: String,
    pub selected: usize,
    pub candidates: Vec<String>,
}

/// A place where a search found something.
#[derive(Debug, Clone, Copy, PartialEq, Eq, Structural)]
pub struct SearchMatch {
    pub start: usize,
    pub end: usize,
}

#[derive(Debug, Clone, PartialEq, Eq)]
pub struct MicaSearchUpdate {
    pub view: WindowId,
    pub matches: Vec<SearchMatch>,
    pub selected: Option<usize>,
}

#[derive(Debug, Clone, PartialEq, Eq)]
pub struct MicaSearchFinish {
    pub view: WindowId,
    pub original_cursor: usize,
    pub query: String,
    pub accepted: bool,
}

/// Something that the policy code lets the host know.
#[derive(Debug)]
pub enum MicaEvent {
    Presentation(MicaPresentationEffect),
    Host(MicaHostAction),
    Native(MicaNativeAction),
    Policy(Vec<MicaPolicyFact>),
    Prompt(MicaPromptUpdate),
    PromptClosed,
    Search(MicaSearchUpdate),
    SearchFinished(MicaSearchFinish),
    Error(String),
    TaskCancelled(u64),
    SubscriptionReady(u64),
    Overloaded,
}

/// The bytes that facts hold.
pub open spec fn facts_heap(facts: Seq<MicaPolicyFact>) -> nat
    decreases facts.len(),
{
    if facts.len() == 0 {
        0
    } else {
        facts_heap(facts.drop_last()) + layout::size_of::<MicaPolicyFact>() + facts.last().heap()
    }
}

/// The bytes that names hold.
pub open spec fn names_heap(names: Seq<String>) -> nat
    decreases names.len(),
{
    if names.len() == 0 {
        0
    } else {
        names_heap(names.drop_last()) + layout::size_of::<String>() + text::utf8_len(names.last()@)
    }
}

fn facts_bytes(facts: &Vec<MicaPolicyFact>) -> (r: usize)
    ensures
        r == countable(facts_heap(facts@)),
{
    let mut total: usize = 0;
    let mut i: usize = 0;
    assert(facts@.take(0) =~= seq![]);
    while i < facts.len()
        invariant
            i <= facts@.len(),
            total == countable(facts_heap(facts@.take(i as int))),
        decreases facts.len() - i,
    {
        assert(facts@.take(i + 1).drop_last() =~= facts@.take(i as int));
        assert(facts@.take(i + 1).last() == facts@[i as int]);
        total = add_up(
            add_up(total, core::mem::size_of::<MicaPolicyFact>()),
            facts[i].heap_bytes(),
        );
        i = i + 1;
    }
    assert(facts@.take(i as int) =~= facts@);
    total
}

fn names_bytes(names: &Vec<String>) -> (r: usize)
    ensures
        r == countable(names_heap(names@)),
{
    let mut total: usize = 0;
    let mut i: usize = 0;
    assert(names@.take(0) =~= seq![]);
    while i < names.len()
        invariant
            i <= names@.len(),
            total == countable(names_heap(names@.take(i as int))),
        decreases names.len() - i,
    {
        assert(names@.take(i + 1).drop_last() =~= names@.take(i as int));
        assert(names@.take(i + 1).last() == names@[i as int]);
        total = add_up(
            add_up(total, core::mem::size_of::<String>()),
            byte_len(names[i].as_str()),
        );
        i = i + 1;
    }
    assert(names@.take(i as int) =~= names@);
    total
}

impl MicaEvent {
    /// The bytes that are kept for the event.
    pub open spec fn retained(&self) -> nat {
        layout::size_of::<MicaEvent>() + match self {
            MicaEvent::Host(action) => action.heap(),
            MicaEvent::Native(MicaNativeAction::InsertText(text)) => text::utf8_len(text@),
            MicaEvent::Error(text) => text::utf8_len(text@),
            MicaEvent::Policy(facts) => facts_heap(facts@),
            MicaEvent::Prompt(prompt) => text::utf8_len(prompt.prefix@) + text::utf8_len(
                prompt.query@,
            ) + names_heap(prompt.candidates@),
            MicaEvent::Search(search) => search.matches@.len() * layout::size_of::<SearchMatch>(),
            MicaEvent::SearchFinished(search) => text::utf8_len(search.query@),
            _ => 0,
        }
    }

    /// The bytes that are kept for the event.
    pub fn retained_bytes(&self) -> (r: usize)
        ensures
            r == countable(self.retained()),
    {
        let heap = match self {
            MicaEvent::Host(action) => action.heap_bytes(),
            MicaEvent::Native(action) => match action {
                MicaNativeAction::InsertText(text) => byte_len(text.as_str()),
                _ => 0,
            },
            MicaEvent::Error(text) => byte_len(text.as_str()),
            MicaEvent::Policy(facts) => facts_bytes(facts),
            MicaEvent::Prompt(prompt) => add_up(
                add_up(byte_len(prompt.prefix.as_str()), byte_len(prompt.query.as_str())),
                names_bytes(&prompt.candidates),
            ),
            MicaEvent::Search(search) => times(
                search.matches.len(),
                core::mem::size_of::<SearchMatch>(),
            ),
            MicaEvent::SearchFinished(search) => byte_len(search.query.as_str()),
            _ => 0,
        };
        add_up(core::mem::size_of::<MicaEvent>(), heap)
    }
}

/// The bytes that are kept for events.
pub open spec fn retained_all(events: Seq<MicaEvent>) -> nat
    decreases events.len(),
{
    if events.len() == 0 {
        0
    } else {
        retained_all(events.drop_last()) + events.last().retained()
    }
}

/// Events in the order in which they came, as many as a bound allows. Once one
/// does not fit, none is taken any more.
#[derive(Debug)]
pub struct MicaEventBatch {
    pub events: Vec<MicaEvent>,
    pub bytes: usize,
    pub overloaded: bool,
}

impl MicaEventBatch {
    /// The count of the bytes is right, and within bounds.
    pub open spec fn wf(&self) -> bool {
        &&& self.events@.len() <= MAX_BATCH_EVENTS
        &&& self.bytes == retained_all(self.events@)
        &&& self.bytes <= MAX_BATCH_BYTES
    }

    /// Whether one more event is taken.
    pub open spec fn takes(&self, event: MicaEvent) -> bool {
        &&& !self.overloaded
        &&& self.events@.len() < MAX_BATCH_EVENTS
        &&& retained_all(self.events@) + event.retained() <= MAX_BATCH_BYTES
    }

    pub fn new() -> (r: Self)
        ensures
            r.wf(),
            r.events@.len() == 0,
            !r.overloaded,
    {
        MicaEventBatch { events: Vec::new(), bytes: 0, overloaded: false }
    }

    /// Takes an event, if it fits. Says whether it did.
    pub fn push(&mut self, event: MicaEvent) -> (r: bool)
        requires
            old(self).wf(),
        ensures
            final(self).wf(),
            r == old(self).takes(event),
            if r {
                final(self).events@ == old(self).events@.push(event) && !final(self).overloaded
            } else {
                final(self).events@ == old(self).events@ && final(self).overloaded
            },
    {
        if self.overloaded {
            return false;
        }
        let bytes = add_up(self.bytes, event.retained_bytes());
        if self.events.len() >= MAX_BATCH_EVENTS || bytes > MAX_BATCH_BYTES {
            self.overloaded = true;
            return false;
        }
        self.bytes = bytes;
        let ghost before = self.events@;
        self.events.push(event);
        assert(self.events@.drop_last() =~= before);
        true
    }

    /// The events that were taken, and that there were more, if so.
    pub fn into_events(self) -> (r: Vec<MicaEvent>)
        ensures
            r@ == if self.overloaded {
                self.events@.push(MicaEvent::Overloaded)
            } else {
                self.events@
            },
    {
        let mut events = self.events;
        if self.overloaded {
            events.push(MicaEvent::Overloaded);
        }
        events
    }
}

impl Default for MicaEventBatch {
    fn default() -> (r: Self)
        ensures
            r.wf(),
            r.events@.len() == 0,
            !r.overloaded,
    {
        Self::new()
    }
}

/// A batch that did not take an event takes none any more: what it holds are the
/// first events, in order.
pub proof fn overloaded_batch_is_final(batch: MicaEventBatch, event: MicaEvent)
    requires
        batch.overloaded,
    ensures
        !batch.takes(event),
{
}

/// Each label but those of movements and texts names the edit that it labels.
pub proof fn labels_name_their_edits(action: MicaNativeAction)
    requires
        !(action is InsertText),
        !(action is Move),
    ensures
        edit_named(action.labelled()) == Some(action),
{
    reveal_strlit("backspace");
    assert("backspace"@.len() == 9);
    reveal_strlit("backward_kill_word");
    assert("backward_kill_word"@.len() == 18);
    reveal_strlit("cancel");
    assert("cancel"@.len() == 6);
    reveal_strlit("copy_region");
    assert("copy_region"@.len() == 11);
    reveal_strlit("cursor_buffer_end");
    assert("cursor_buffer_end"@.len() == 17);
    reveal_strlit("cursor_buffer_end_select");
    assert("cursor_buffer_end_select"@.len() == 24);
    reveal_strlit("cursor_buffer_start");
    assert("cursor_buffer_start"@.len() == 19);
    reveal_strlit("cursor_buffer_start_select");
    assert("cursor_buffer_start_select"@.len() == 26);
    reveal_strlit("cursor_down");
    assert("cursor_down"@.len() == 11);
    reveal_strlit("cursor_down_select");
    assert("cursor_down_select"@.len() == 18);
    reveal_strlit("cursor_left");
    assert("cursor_left"@.len() == 11);
    reveal_strlit("cursor_left_select");
    assert("cursor_left_select"@.len() == 18);
    reveal_strlit("cursor_line_end");
    assert("cursor_line_end"@.len() == 15);
    reveal_strlit("cursor_line_end_select");
    assert("cursor_line_end_select"@.len() == 22);
    reveal_strlit("cursor_line_start");
    assert("cursor_line_start"@.len() == 17);
    reveal_strlit("cursor_line_start_select");
    assert("cursor_line_start_select"@.len() == 24);
    reveal_strlit("cursor_page_down");
    assert("cursor_page_down"@.len() == 16);
    reveal_strlit("cursor_page_down_select");
    assert("cursor_page_down_select"@.len() == 23);
    reveal_strlit("cursor_page_up");
    assert("cursor_page_up"@.len() == 14);
    reveal_strlit("cursor_page_up_select");
    assert("cursor_page_up_select"@.len() == 21);
    reveal_strlit("cursor_paragraph_backward");
    assert("cursor_paragraph_backward"@.len() == 25);
    reveal_strlit("cursor_paragraph_forward");
    assert("cursor_paragraph_forward"@.len() == 24);
    reveal_strlit("cursor_right");
    assert("cursor_right"@.len() == 12);
    reveal_strlit("cursor_right_select");
    assert("cursor_right_select"@.len() == 19);
    reveal_strlit("cursor_up");
    assert("cursor_up"@.len() == 9);
    reveal_strlit("cursor_up_select");
    assert("cursor_up_select"@.len() == 16);
    reveal_strlit("cursor_word_backward");
    assert("cursor_word_backward"@.len() == 20);
    reveal_strlit("cursor_word_backward_select");
    assert("cursor_word_backward_select"@.len() == 27);
    reveal_strlit("cursor_word_forward");
    assert("cursor_word_forward"@.len() == 19);
    reveal_strlit("cursor_word_forward_select");
    assert("cursor_word_forward_select"@.len() == 26);
    reveal_strlit("delete");
    assert("delete"@.len() == 6);
    reveal_strlit("enter");
    assert("enter"@.len() == 5);
    reveal_strlit("escape");
    assert("escape"@.len() == 6);
    reveal_strlit("kill_line");
    assert("kill_line"@.len() == 9);
    reveal_strlit("kill_region");
    assert("kill_region"@.len() == 11);
    reveal_strlit("kill_word");
    assert("kill_word"@.len() == 9);
    reveal_strlit("mark_whole_buffer");
    assert("mark_whole_buffer"@.len() == 17);
    reveal_strlit("redo");
    assert("redo"@.len() == 4);
    reveal_strlit("set_mark");
    assert("set_mark"@.len() == 8);
    reveal_strlit("tab");
    assert("tab"@.len() == 3);
    reveal_strlit("undo");
    assert("undo"@.len() == 4);
    reveal_strlit("yank");
    assert("yank"@.len() == 4);
    assert("backspace"@[0] == 'b');
    assert("backward_kill_word"@[0] == 'b');
    assert("cancel"@[0] == 'c');
    assert("copy_region"@[0] == 'c');
    assert("copy_region"@[1] == 'o');
    assert("cursor_buffer_end"@[0] == 'c');
    assert("cursor_down"@[0] == 'c');
    assert("cursor_down"@[1] == 'u');
    assert("cursor_down_select"@[0] == 'c');
    assert("cursor_left"@[0] == 'c');
    assert("cursor_left"@[1] == 'u');
    assert("cursor_left_select"@[0] == 'c');
    assert("cursor_line_start"@[0] == 'c');
    assert("cursor_up"@[0] == 'c');
    assert("delete"@[0] == 'd');
    assert("escape"@[0] == 'e');
    assert("kill_line"@[0] == 'k');
    assert("kill_line"@[5] == 'l');
    assert("kill_region"@[0] == 'k');
    assert("kill_word"@[0] == 'k');
    assert("kill_word"@[5] == 'w');
    assert("mark_whole_buffer"@[0] == 'm');
    assert("redo"@[0] == 'r');
    assert("undo"@[0] == 'u');
    assert("yank"@[0] == 'y');
}

} // verus!
