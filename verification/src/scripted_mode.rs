//! Modes that a script defines.

use vstd::prelude::*;
use vstd::string::*;

use crate::editor::OpenType;
use crate::ids::BufferId;
use crate::keys::{CursorDirection, KeyAction};
use crate::mode;
use crate::mode::{ActionPosition, ModeAction, ModeActionView, ModeResult, ModeResultView};
use crate::text;
use crate::text::{char_string, concat3, decimal_string, str_eq};
use crate::text_dict::TextDict;

verus! {

/// An action that a script wants to be done.
#[derive(Debug, Clone)]
pub struct JuliaModeAction {
    pub action_type: String,
    pub text: Option<String>,
    pub position: Option<String>,
    pub path: Option<String>,
    pub open_type: Option<String>,
    pub command: Option<String>,
    pub buffer_index: Option<i64>,
}

/// What a script makes of a key.
#[derive(Debug, Clone)]
pub struct JuliaModeResult {
    /// "consumed", "annotated" or "ignored".
    pub result_type: String,
    pub actions: Vec<JuliaModeAction>,
}

/// The mode of a script.
#[derive(Debug)]
pub struct ScriptedMode {
    pub mode_name: String,
    /// What the script is told with the first key.
    pub init_params: TextDict,
    /// Whether the script has been told of a key.
    pub initialized: bool,
    /// The buffers that the script names by number.
    pub buffer_id_map: Vec<BufferId>,
}

/// The name of a direction.
pub open spec fn direction_name(dir: CursorDirection) -> Seq<char> {
    match dir {
        CursorDirection::Left => "left"@,
        CursorDirection::Right => "right"@,
        CursorDirection::Up => "up"@,
        CursorDirection::Down => "down"@,
        CursorDirection::LineEnd => "line_end"@,
        CursorDirection::LineStart => "line_start"@,
        CursorDirection::BufferStart => "buffer_start"@,
        CursorDirection::BufferEnd => "buffer_end"@,
        CursorDirection::PageUp => "page_up"@,
        CursorDirection::PageDown => "page_down"@,
        CursorDirection::WordForward => "word_forward"@,
        CursorDirection::WordBackward => "word_backward"@,
        CursorDirection::ParagraphForward => "paragraph_forward"@,
        CursorDirection::ParagraphBackward => "paragraph_backward"@,
    }
}

fn cursor_direction_str(dir: &CursorDirection) -> (r: &'static str)
    ensures
        r@ == direction_name(*dir),
{
    match dir {
        CursorDirection::Left => "left",
        CursorDirection::Right => "right",
        CursorDirection::Up => "up",
        CursorDirection::Down => "down",
        CursorDirection::LineEnd => "line_end",
        CursorDirection::LineStart => "line_start",
        CursorDirection::BufferStart => "buffer_start",
        CursorDirection::BufferEnd => "buffer_end",
        CursorDirection::PageUp => "page_up",
        CursorDirection::PageDown => "page_down",
        CursorDirection::WordForward => "word_forward",
        CursorDirection::WordBackward => "word_backward",
        CursorDirection::ParagraphForward => "paragraph_forward",
        CursorDirection::ParagraphBackward => "paragraph_backward",
    }
}

/// A direction as it is written in the source.
pub open spec fn direction_source(dir: CursorDirection) -> Seq<char> {
    match dir {
        CursorDirection::Left => "Left"@,
        CursorDirection::Right => "Right"@,
        CursorDirection::Up => "Up"@,
        CursorDirection::Down => "Down"@,
        CursorDirection::LineEnd => "LineEnd"@,
        CursorDirection::LineStart => "LineStart"@,
        CursorDirection::BufferStart => "BufferStart"@,
        CursorDirection::BufferEnd => "BufferEnd"@,
        CursorDirection::PageUp => "PageUp"@,
        CursorDirection::PageDown => "PageDown"@,
        CursorDirection::WordForward => "WordForward"@,
        CursorDirection::WordBackward => "WordBackward"@,
        CursorDirection::ParagraphForward => "ParagraphForward"@,
        CursorDirection::ParagraphBackward => "ParagraphBackward"@,
    }
}

fn direction_in_source(dir: &CursorDirection) -> (r: &'static str)
    ensures
        r@ == direction_source(*dir),
{
    match dir {
        CursorDirection::Left => "Left",
        CursorDirection::Right => "Right",
        CursorDirection::Up => "Up",
        CursorDirection::Down => "Down",
        CursorDirection::LineEnd => "LineEnd",
        CursorDirection::LineStart => "LineStart",
        CursorDirection::BufferStart => "BufferStart",
        CursorDirection::BufferEnd => "BufferEnd",
        CursorDirection::PageUp => "PageUp",
        CursorDirection::PageDown => "PageDown",
        CursorDirection::WordForward => "WordForward",
        CursorDirection::WordBackward => "WordBackward",
        CursorDirection::ParagraphForward => "ParagraphForward",
        CursorDirection::ParagraphBackward => "ParagraphBackward",
    }
}

/// `true` or `false`, in words.
pub open spec fn truth(b: bool) -> Seq<char> {
    if b {
        "true"@
    } else {
        "false"@
    }
}

fn truth_str(b: bool) -> (r: &'static str)
    ensures
        r@ == truth(b),
{
    if b {
        "true"
    } else {
        "false"
    }
}

/// An action as it is written in the source, for those that have no dictionary
/// of their own.
pub open spec fn action_source(action: KeyAction) -> Seq<char> {
    match action {
        KeyAction::CursorSelect(dir) => "CursorSelect("@ + direction_source(dir) + ")"@,
        KeyAction::InsertModeToggle => "InsertModeToggle"@,
        KeyAction::ForceIndent => "ForceIndent"@,
        KeyAction::MarkStart => "MarkStart"@,
        KeyAction::MarkEnd => "MarkEnd"@,
        KeyAction::MarkWholeBuffer => "MarkWholeBuffer"@,
        KeyAction::KillRegion(b) => "KillRegion("@ + truth(b) + ")"@,
        KeyAction::KillLine(b) => "KillLine("@ + truth(b) + ")"@,
        KeyAction::Yank(Some(n)) => "Yank(Some("@ + text::decimal(n as nat) + "))"@,
        KeyAction::Yank(None) => "Yank(None)"@,
        KeyAction::Undo => "Undo"@,
        KeyAction::Redo => "Redo"@,
        KeyAction::DeleteWord => "DeleteWord"@,
        KeyAction::BackspaceWord => "BackspaceWord"@,
        KeyAction::ToggleCapsLock => "ToggleCapsLock"@,
        KeyAction::ToggleScrollLock => "ToggleScrollLock"@,
        KeyAction::ChordNext => "ChordNext"@,
        KeyAction::CommandMode => "CommandMode"@,
        KeyAction::Save => "Save"@,
        KeyAction::Quit => "Quit"@,
        KeyAction::FindFile => "FindFile"@,
        KeyAction::SplitHorizontal => "SplitHorizontal"@,
        KeyAction::SplitVertical => "SplitVertical"@,
        KeyAction::SwitchWindow => "SwitchWindow"@,
        KeyAction::DeleteWindow => "DeleteWindow"@,
        KeyAction::DeleteOtherWindows => "DeleteOtherWindows"@,
        KeyAction::SwitchBuffer => "SwitchBuffer"@,
        KeyAction::KillBuffer => "KillBuffer"@,
        KeyAction::Unbound => "Unbound"@,
        KeyAction::Redraw => "Redraw"@,
        _ => Seq::<char>::empty(),
    }
}

fn action_in_source(action: &KeyAction) -> (r: String)
    ensures
        r@ == action_source(*action),
{
    match action {
        KeyAction::CursorSelect(dir) => concat3("CursorSelect(", direction_in_source(dir), ")"),
        KeyAction::InsertModeToggle => "InsertModeToggle".to_owned(),
        KeyAction::ForceIndent => "ForceIndent".to_owned(),
        KeyAction::MarkStart => "MarkStart".to_owned(),
        KeyAction::MarkEnd => "MarkEnd".to_owned(),
        KeyAction::MarkWholeBuffer => "MarkWholeBuffer".to_owned(),
        KeyAction::KillRegion(b) => concat3("KillRegion(", truth_str(*b), ")"),
        KeyAction::KillLine(b) => concat3("KillLine(", truth_str(*b), ")"),
        KeyAction::Yank(index) => match index {
            Some(n) => concat3("Yank(Some(", decimal_string(*n as u64).as_str(), "))"),
            None => "Yank(None)".to_owned(),
        },
        KeyAction::Undo => "Undo".to_owned(),
        KeyAction::Redo => "Redo".to_owned(),
        KeyAction::DeleteWord => "DeleteWord".to_owned(),
        KeyAction::BackspaceWord => "BackspaceWord".to_owned(),
        KeyAction::ToggleCapsLock => "ToggleCapsLock".to_owned(),
        KeyAction::ToggleScrollLock => "ToggleScrollLock".to_owned(),
        KeyAction::ChordNext => "ChordNext".to_owned(),
        KeyAction::CommandMode => "CommandMode".to_owned(),
        KeyAction::Save => "Save".to_owned(),
        KeyAction::Quit => "Quit".to_owned(),
        KeyAction::FindFile => "FindFile".to_owned(),
        KeyAction::SplitHorizontal => "SplitHorizontal".to_owned(),
        KeyAction::SplitVertical => "SplitVertical".to_owned(),
        KeyAction::SwitchWindow => "SwitchWindow".to_owned(),
        KeyAction::DeleteWindow => "DeleteWindow".to_owned(),
        KeyAction::DeleteOtherWindows => "DeleteOtherWindows".to_owned(),
        KeyAction::SwitchBuffer => "SwitchBuffer".to_owned(),
        KeyAction::KillBuffer => "KillBuffer".to_owned(),
        KeyAction::Unbound => "Unbound".to_owned(),
        KeyAction::Redraw => "Redraw".to_owned(),
        _ => String::new(),
    }
}

/// What a script is told of a key.
pub open spec fn key_dict(action: KeyAction) -> Map<Seq<char>, Seq<char>> {
    let none = Map::<Seq<char>, Seq<char>>::empty();
    match action {
        KeyAction::AlphaNumeric(c) => none.insert("type"@, "alphanumeric"@).insert(
            "char"@,
            seq![c],
        ),
        KeyAction::Cursor(dir) => none.insert("type"@, "cursor"@).insert(
            "direction"@,
            direction_name(dir),
        ),
        KeyAction::Delete => none.insert("type"@, "delete"@),
        KeyAction::Backspace => none.insert("type"@, "backspace"@),
        KeyAction::Enter => none.insert("type"@, "enter"@),
        KeyAction::Tab => none.insert("type"@, "tab"@),
        KeyAction::Escape => none.insert("type"@, "escape"@),
        KeyAction::Cancel => none.insert("type"@, "cancel"@),
        KeyAction::Command(name) => none.insert("type"@, "command"@).insert("name"@, name@),
        _ => none.insert("type"@, "other"@).insert("debug"@, action_source(action)),
    }
}

/// The position that a script names.
pub open spec fn position_named(name: Option<String>) -> ActionPosition {
    match name {
        Some(s) => if s@ == "start"@ {
            ActionPosition::Absolute(0, 0)
        } else if s@ == "end"@ {
            ActionPosition::End
        } else {
            ActionPosition::Cursor
        },
        None => ActionPosition::Cursor,
    }
}

/// A text that may be missing, which then is empty.
pub open spec fn or_empty(s: Option<String>) -> Seq<char> {
    match s {
        Some(s) => s@,
        None => Seq::<char>::empty(),
    }
}

fn unwrap_or_empty(s: Option<String>) -> (r: String)
    ensures
        r@ == or_empty(s),
{
    match s {
        Some(s) => s,
        None => String::new(),
    }
}

impl ScriptedMode {
    pub fn new(mode_name: String) -> (r: Self)
        ensures
            r.mode_name == mode_name,
            r.init_params@ == Map::<Seq<char>, Seq<char>>::empty(),
            !r.initialized,
            r.buffer_id_map@.len() == 0,
    {
        ScriptedMode {
            mode_name,
            init_params: TextDict::new(),
            initialized: false,
            buffer_id_map: Vec::new(),
        }
    }

    /// Sets what the script is told with the first key.
    pub fn set_init_param(&mut self, key: &str, value: &str)
        ensures
            final(self).init_params@ == old(self).init_params@.insert(key@, value@),
            *final(self) == (ScriptedMode { init_params: final(self).init_params, ..*old(self) }),
    {
        self.init_params.set(key, value);
    }

    /// Sets the buffers that the script names by number.
    pub fn set_buffer_id_map(&mut self, map: Vec<BufferId>)
        ensures
            *final(self) == (ScriptedMode { buffer_id_map: map, ..*old(self) }),
    {
        self.buffer_id_map = map;
    }

    /// What a script is told of a key.
    pub fn key_action_to_dict(action: &KeyAction) -> (r: TextDict)
        ensures
            r@ == key_dict(*action),
    {
        let mut dict = TextDict::new();
        match action {
            KeyAction::AlphaNumeric(c) => {
                dict.set("type", "alphanumeric");
                dict.set("char", char_string(*c).as_str());
            },
            KeyAction::Cursor(dir) => {
                dict.set("type", "cursor");
                dict.set("direction", cursor_direction_str(dir));
            },
            KeyAction::Delete => dict.set("type", "delete"),
            KeyAction::Backspace => dict.set("type", "backspace"),
            KeyAction::Enter => dict.set("type", "enter"),
            KeyAction::Tab => dict.set("type", "tab"),
            KeyAction::Escape => dict.set("type", "escape"),
            KeyAction::Cancel => dict.set("type", "cancel"),
            KeyAction::Command(name) => {
                dict.set("type", "command");
                dict.set("name", name.as_str());
            },
            _ => {
                dict.set("type", "other");
                dict.set("debug", action_in_source(action).as_str());
            },
        }
        dict
    }

    /// What the script is asked when a key comes: it is told of the key, and the
    /// first time of what it has to know, with the kind of the key set aside.
    pub open spec fn question(&self, action: KeyAction) -> Map<Seq<char>, Seq<char>> {
        let dict = key_dict(action);
        if self.initialized {
            dict
        } else {
            let all = dict.union_prefer_right(self.init_params@);
            let kind = if all.contains_key("type"@) {
                all["type"@]
            } else {
                Seq::<char>::empty()
            };
            all.insert("original_type"@, kind).insert("type"@, "init"@)
        }
    }

    /// What the script is to be asked about a key.
    pub fn ask(&mut self, action: &KeyAction) -> (r: TextDict)
        ensures
            r@ == old(self).question(*action),
            *final(self) == (ScriptedMode { initialized: true, ..*old(self) }),
    {
        let mut dict = Self::key_action_to_dict(action);
        if !self.initialized {
            self.initialized = true;
            dict.take_over(&self.init_params);
            let kind = match dict.get("type") {
                Some(kind) => kind,
                None => String::new(),
            };
            dict.set("original_type", kind.as_str());
            dict.set("type", "init");
        }
        dict
    }

    /// What the answer of a script comes to; nothing where there is none.
    pub fn answered(&self, answer: Option<JuliaModeResult>) -> (r: ModeResult)
        ensures
            match answer {
                Some(result) => r@ == self.converted(result),
                None => r@ == ModeResultView::Ignored,
            },
    {
        match answer {
            Some(result) => self.convert_result(result),
            None => ModeResult::Ignored,
        }
    }

    /// The buffer with a number.
    pub open spec fn numbered(&self, index: Option<i64>) -> Option<BufferId> {
        let i = match index {
            Some(i) => i as usize,
            None => 0,
        };
        if i < self.buffer_id_map@.len() {
            Some(self.buffer_id_map@[i as int])
        } else {
            None
        }
    }

    /// What an action of a script comes to. Those that are not known come to
    /// nothing.
    pub open spec fn action_meant(&self, action: JuliaModeAction) -> Option<ModeActionView> {
        let kind = action.action_type@;
        if kind == "clear_text"@ {
            Some(ModeActionView::ClearText)
        } else if kind == "insert_text"@ {
            Some(
                ModeActionView::InsertText(
                    position_named(action.position),
                    or_empty(action.text),
                ),
            )
        } else if kind == "open_file"@ {
            Some(
                ModeActionView::OpenFile {
                    path: or_empty(action.path),
                    open_type: if action.open_type matches Some(s) && s@ == "visit"@ {
                        OpenType::Visit
                    } else {
                        OpenType::New
                    },
                },
            )
        } else if kind == "execute_command"@ {
            Some(ModeActionView::ExecuteCommand(or_empty(action.command)))
        } else if kind == "switch_buffer"@ {
            match self.numbered(action.buffer_index) {
                Some(id) => Some(ModeActionView::SwitchToBuffer(id)),
                None => None,
            }
        } else if kind == "kill_buffer"@ {
            match self.numbered(action.buffer_index) {
                Some(id) => Some(ModeActionView::KillBuffer(id)),
                None => None,
            }
        } else if kind == "cursor_up"@ {
            Some(ModeActionView::CursorUp)
        } else if kind == "cursor_down"@ {
            Some(ModeActionView::CursorDown)
        } else if kind == "cursor_left"@ {
            Some(ModeActionView::CursorLeft)
        } else if kind == "cursor_right"@ {
            Some(ModeActionView::CursorRight)
        } else {
            None
        }
    }

    /// What actions of a script come to, in order.
    pub open spec fn actions_meant(&self, actions: Seq<JuliaModeAction>) -> Seq<ModeActionView>
        decreases actions.len(),
    {
        if actions.len() == 0 {
            seq![]
        } else {
            let before = self.actions_meant(actions.drop_last());
            match self.action_meant(actions.last()) {
                Some(a) => before.push(a),
                None => before,
            }
        }
    }

    /// What the answer of a script comes to.
    pub open spec fn converted(&self, result: JuliaModeResult) -> ModeResultView {
        let actions = self.actions_meant(result.actions@);
        if result.result_type@ == "consumed"@ {
            ModeResultView::Consumed(actions)
        } else if result.result_type@ == "annotated"@ {
            ModeResultView::Annotated(actions)
        } else {
            ModeResultView::Ignored
        }
    }

    /// What the answer of a script comes to.
    pub fn convert_result(&self, result: JuliaModeResult) -> (r: ModeResult)
        ensures
            r@ == self.converted(result),
    {
        let ghost all = result.actions@;
        let mut actions: Vec<ModeAction> = Vec::new();
        let mut i: usize = 0;
        assert(all.take(0) =~= seq![]);
        assert(mode::action_views(actions@) =~= seq![]);
        while i < result.actions.len()
            invariant
                i <= result.actions@.len(),
                all == result.actions@,
                mode::action_views(actions@) == self.actions_meant(all.take(i as int)),
            decreases result.actions.len() - i,
        {
            assert(all.take(i + 1).drop_last() =~= all.take(i as int));
            assert(all.take(i + 1).last() == all[i as int]);
            let ghost before = actions@;
            match self.convert_action(&result.actions[i]) {
                Some(a) => {
                    actions.push(a);
                    assert(mode::action_views(actions@) =~= mode::action_views(before).push(a@));
                },
                None => (),
            }
            i = i + 1;
        }
        assert(all.take(i as int) =~= all);
        if str_eq(result.result_type.as_str(), "consumed") {
            ModeResult::Consumed(actions)
        } else if str_eq(result.result_type.as_str(), "annotated") {
            ModeResult::Annotated(actions)
        } else {
            ModeResult::Ignored
        }
    }

    fn number(&self, index: &Option<i64>) -> (r: Option<BufferId>)
        ensures
            r == self.numbered(*index),
    {
        let i: usize = match index {
            Some(i) => *i as usize,
            None => 0,
        };
        if i < self.buffer_id_map.len() {
            Some(self.buffer_id_map[i])
        } else {
            None
        }
    }

    fn convert_action(&self, action: &JuliaModeAction) -> (r: Option<ModeAction>)
        ensures
            match r {
                Some(a) => self.action_meant(*action) == Some(a@),
                None => self.action_meant(*action) is None,
            },
    {
        let kind = action.action_type.as_str();
        if str_eq(kind, "clear_text") {
            Some(ModeAction::ClearText)
        } else if str_eq(kind, "insert_text") {
            let position = match &action.position {
                Some(s) => if str_eq(s.as_str(), "start") {
                    ActionPosition::Absolute(0, 0)
                } else if str_eq(s.as_str(), "end") {
                    ActionPosition::End
                } else {
                    ActionPosition::Cursor
                },
                None => ActionPosition::Cursor,
            };
            Some(ModeAction::InsertText(position, unwrap_or_empty(action.text.clone())))
        } else if str_eq(kind, "open_file") {
            let visit = match &action.open_type {
                Some(s) => str_eq(s.as_str(), "visit"),
                None => false,
            };
            Some(
                ModeAction::OpenFile {
                    path: unwrap_or_empty(action.path.clone()),
                    open_type: if visit {
                        OpenType::Visit
                    } else {
                        OpenType::New
                    },
                },
            )
        } else if str_eq(kind, "execute_command") {
            Some(ModeAction::ExecuteCommand(unwrap_or_empty(action.command.clone())))
        } else if str_eq(kind, "switch_buffer") {
            match self.number(&action.buffer_index) {
                Some(id) => Some(ModeAction::SwitchToBuffer(id)),
                None => None,
            }
        } else if str_eq(kind, "kill_buffer") {
            match self.number(&action.buffer_index) {
                Some(id) => Some(ModeAction::KillBuffer(id)),
                None => None,
            }
        } else if str_eq(kind, "cursor_up") {
            Some(ModeAction::CursorUp)
        } else if str_eq(kind, "cursor_down") {
            Some(ModeAction::CursorDown)
        } else if str_eq(kind, "cursor_left") {
            Some(ModeAction::CursorLeft)
        } else if str_eq(kind, "cursor_right") {
            Some(ModeAction::CursorRight)
        } else {
            None
        }
    }
}

} // verus!
