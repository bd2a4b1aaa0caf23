//! Modes: what a key or the mouse does in a buffer.

use vstd::prelude::*;
use vstd::string::*;

use crate::command_registry::{Command, CommandCategory, CommandOutcome};
use crate::editor::OpenType;
use crate::ids::{BufferId, WindowId};
use crate::keys::KeyAction;
use crate::text;
use crate::text::{byte_len, char_string, concat2, str_chars, without_last};

pub use crate::editor::ActionPosition;

verus! {

/// What the mouse did.
#[derive(Debug, Clone, Copy, PartialEq, Eq)]
pub struct MouseEvent {
    /// Column and row within the window.
    pub position: (u16, u16),
    pub event_type: MouseEventType,
}

#[derive(Debug, Clone, Copy, PartialEq, Eq, Structural)]
pub enum MouseEventType {
    LeftClick,
    RightClick,
    /// The mouse moved with no button down.
    Move,
    LeftDrag,
}

/// What a mode wants to be done.
#[derive(Debug, Clone, PartialEq, Eq)]
pub enum ModeAction {
    InsertText(ActionPosition, String),
    DeleteText(ActionPosition, isize),
    KillText(ActionPosition, isize),
    KillLine,
    BackwardKillWord,
    ForwardKillWord,
    KillRegion,
    CopyRegion,
    Yank(ActionPosition),
    YankIndex(ActionPosition, usize),
    SetMark,
    ClearMark,
    Save,
    ClearText,
    ExecuteCommand(String),
    SwitchToBuffer(BufferId),
    KillBuffer(BufferId),
    OpenFile { path: String, open_type: OpenType },
    /// To a row and column.
    MoveCursor(u16, u16),
    CursorUp,
    CursorDown,
    CursorLeft,
    CursorRight,
    NextLine,
    /// Evaluates an expression and appends what it comes to.
    EvalJulia(String),
    UpdateIsearch {
        target_buffer_id: BufferId,
        target_window_id: WindowId,
        matches: Vec<(usize, usize)>,
        current_match: Option<usize>,
    },
    AcceptIsearch { target_buffer_id: BufferId, search_term: String },
    CancelIsearch {
        target_buffer_id: BufferId,
        target_window_id: WindowId,
        original_cursor: usize,
    },
}

/// A mode action as a mathematical value.
pub enum ModeActionView {
    InsertText(ActionPosition, Seq<char>),
    DeleteText(ActionPosition, int),
    KillText(ActionPosition, int),
    KillLine,
    BackwardKillWord,
    ForwardKillWord,
    KillRegion,
    CopyRegion,
    Yank(ActionPosition),
    YankIndex(ActionPosition, usize),
    SetMark,
    ClearMark,
    Save,
    ClearText,
    ExecuteCommand(Seq<char>),
    SwitchToBuffer(BufferId),
    KillBuffer(BufferId),
    OpenFile { path: Seq<char>, open_type: OpenType },
    MoveCursor(u16, u16),
    CursorUp,
    CursorDown,
    CursorLeft,
    CursorRight,
    NextLine,
    EvalJulia(Seq<char>),
    UpdateIsearch {
        target_buffer_id: BufferId,
        target_window_id: WindowId,
        matches: Seq<(usize, usize)>,
        current_match: Option<usize>,
    },
    AcceptIsearch { target_buffer_id: BufferId, search_term: Seq<char> },
    CancelIsearch {
        target_buffer_id: BufferId,
        target_window_id: WindowId,
        original_cursor: usize,
    },
}

impl View for ModeAction {
    type V = ModeActionView;

    open spec fn view(&self) -> ModeActionView {
        match self {
            ModeAction::InsertText(p, s) => ModeActionView::InsertText(*p, s@),
            ModeAction::DeleteText(p, n) => ModeActionView::DeleteText(*p, *n as int),
            ModeAction::KillText(p, n) => ModeActionView::KillText(*p, *n as int),
            ModeAction::KillLine => ModeActionView::KillLine,
            ModeAction::BackwardKillWord => ModeActionView::BackwardKillWord,
            ModeAction::ForwardKillWord => ModeActionView::ForwardKillWord,
            ModeAction::KillRegion => ModeActionView::KillRegion,
            ModeAction::CopyRegion => ModeActionView::CopyRegion,
            ModeAction::Yank(p) => ModeActionView::Yank(*p),
            ModeAction::YankIndex(p, n) => ModeActionView::YankIndex(*p, *n),
            ModeAction::SetMark => ModeActionView::SetMark,
            ModeAction::ClearMark => ModeActionView::ClearMark,
            ModeAction::Save => ModeActionView::Save,
            ModeAction::ClearText => ModeActionView::ClearText,
            ModeAction::ExecuteCommand(s) => ModeActionView::ExecuteCommand(s@),
            ModeAction::SwitchToBuffer(b) => ModeActionView::SwitchToBuffer(*b),
            ModeAction::KillBuffer(b) => ModeActionView::KillBuffer(*b),
            ModeAction::OpenFile { path, open_type } => ModeActionView::OpenFile {
                path: path@,
                open_type: *open_type,
            },
            ModeAction::MoveCursor(r, c) => ModeActionView::MoveCursor(*r, *c),
            ModeAction::CursorUp => ModeActionView::CursorUp,
            ModeAction::CursorDown => ModeActionView::CursorDown,
            ModeAction::CursorLeft => ModeActionView::CursorLeft,
            ModeAction::CursorRight => ModeActionView::CursorRight,
            ModeAction::NextLine => ModeActionView::NextLine,
            ModeAction::EvalJulia(s) => ModeActionView::EvalJulia(s@),
            ModeAction::UpdateIsearch {
                target_buffer_id,
                target_window_id,
                matches,
                current_match,
            } => ModeActionView::UpdateIsearch {
                target_buffer_id: *target_buffer_id,
                target_window_id: *target_window_id,
                matches: matches@,
                current_match: *current_match,
            },
            ModeAction::AcceptIsearch { target_buffer_id, search_term } =>
                ModeActionView::AcceptIsearch {
                target_buffer_id: *target_buffer_id,
                search_term: search_term@,
            },
            ModeAction::CancelIsearch { target_buffer_id, target_window_id, original_cursor } =>
                ModeActionView::CancelIsearch {
                target_buffer_id: *target_buffer_id,
                target_window_id: *target_window_id,
                original_cursor: *original_cursor,
            },
        }
    }
}

/// Mode actions as mathematical values.
pub open spec fn action_views(actions: Seq<ModeAction>) -> Seq<ModeActionView> {
    actions.map_values(|a: ModeAction| a@)
}

/// What a mode makes of an event.
#[derive(Debug, Clone, PartialEq, Eq)]
pub enum ModeResult {
    /// No other mode sees the event.
    Consumed(Vec<ModeAction>),
    /// Other modes see the event too.
    Annotated(Vec<ModeAction>),
    /// The mode has nothing to do with the event.
    Ignored,
}

/// What a mode makes of an event, as a mathematical value.
pub enum ModeResultView {
    Consumed(Seq<ModeActionView>),
    Annotated(Seq<ModeActionView>),
    Ignored,
}

impl View for ModeResult {
    type V = ModeResultView;

    open spec fn view(&self) -> ModeResultView {
        match self {
            ModeResult::Consumed(actions) => ModeResultView::Consumed(action_views(actions@)),
            ModeResult::Annotated(actions) => ModeResultView::Annotated(action_views(actions@)),
            ModeResult::Ignored => ModeResultView::Ignored,
        }
    }
}

/// The result that consists of one action and consumes the event.
pub open spec fn one(action: ModeActionView) -> ModeResultView {
    ModeResultView::Consumed(seq![action])
}

pub(crate) fn consume_one(action: ModeAction) -> (r: ModeResult)
    ensures
        r@ == one(action@),
{
    let actions = vec![action];
    assert(action_views(actions@) =~= seq![action@]);
    ModeResult::Consumed(actions)
}

/// A mode of a buffer.
pub trait Mode: Send + Sync {
    fn name(&self) -> (r: &str);

    /// What a key does.
    fn perform(&mut self, action: &KeyAction) -> (r: ModeResult);

    /// What the mouse does: nothing, unless a mode says otherwise.
    fn handle_mouse(&mut self, event: &MouseEvent) -> (r: ModeResult)
        default_ensures
            r@ == ModeResultView::Ignored,
    {
        ModeResult::Ignored
    }

    /// The commands that the mode adds: none, unless a mode says otherwise.
    fn available_commands(&self) -> (r: Vec<Command>)
        default_ensures
            r@.len() == 0,
    {
        Vec::new()
    }
}

/// What a left click does in most modes: the cursor goes there.
pub open spec fn click_result(event: MouseEvent) -> ModeResultView {
    if event.event_type == MouseEventType::LeftClick {
        one(ModeActionView::MoveCursor(event.position.1, event.position.0))
    } else {
        ModeResultView::Ignored
    }
}

fn follow_click(event: &MouseEvent) -> (r: ModeResult)
    ensures
        r@ == click_result(*event),
{
    match event.event_type {
        MouseEventType::LeftClick => consume_one(
            ModeAction::MoveCursor(event.position.1, event.position.0),
        ),
        _ => ModeResult::Ignored,
    }
}

/// What a yank does in most modes.
pub open spec fn yank_result(index: Option<usize>) -> ModeResultView {
    match index {
        Some(i) => one(ModeActionView::YankIndex(ActionPosition::Cursor, i)),
        None => one(ModeActionView::Yank(ActionPosition::Cursor)),
    }
}

fn yank_action(index: &Option<usize>) -> (r: ModeResult)
    ensures
        r@ == yank_result(*index),
{
    match index {
        Some(i) => consume_one(ModeAction::YankIndex(ActionPosition::cursor(), *i)),
        None => consume_one(ModeAction::Yank(ActionPosition::cursor())),
    }
}

/// What a key does in a mode for editing. Saving is for files only.
pub open spec fn editing_result(action: KeyAction, saves: bool) -> ModeResultView {
    let cursor = ActionPosition::Cursor;
    match action {
        KeyAction::MarkStart => one(ModeActionView::SetMark),
        KeyAction::KillRegion(true) => one(ModeActionView::KillRegion),
        KeyAction::KillRegion(false) => one(ModeActionView::CopyRegion),
        KeyAction::KillLine(_) => one(ModeActionView::KillLine),
        KeyAction::Yank(index) => yank_result(index),
        KeyAction::Tab => one(ModeActionView::ExecuteCommand("indent-line"@)),
        KeyAction::Delete => one(ModeActionView::DeleteText(cursor, 1)),
        KeyAction::Backspace => one(ModeActionView::DeleteText(cursor, -1)),
        KeyAction::Enter => one(ModeActionView::ExecuteCommand("newline-and-indent"@)),
        KeyAction::DeleteWord => one(ModeActionView::ForwardKillWord),
        KeyAction::BackspaceWord => one(ModeActionView::BackwardKillWord),
        KeyAction::AlphaNumeric(c) => ModeResultView::Annotated(
            seq![ModeActionView::InsertText(cursor, seq![c])],
        ),
        KeyAction::Cancel => one(ModeActionView::ClearMark),
        KeyAction::Save => if saves {
            one(ModeActionView::Save)
        } else {
            ModeResultView::Ignored
        },
        _ => ModeResultView::Ignored,
    }
}

fn edit(action: &KeyAction, saves: bool) -> (r: ModeResult)
    ensures
        r@ == editing_result(*action, saves),
{
    match action {
        KeyAction::MarkStart => consume_one(ModeAction::SetMark),
        KeyAction::KillRegion(destructive) => if *destructive {
            consume_one(ModeAction::KillRegion)
        } else {
            consume_one(ModeAction::CopyRegion)
        },
        KeyAction::KillLine(_) => consume_one(ModeAction::KillLine),
        KeyAction::Yank(index) => yank_action(index),
        KeyAction::Tab => consume_one(ModeAction::ExecuteCommand("indent-line".to_owned())),
        KeyAction::Delete => consume_one(ModeAction::DeleteText(ActionPosition::cursor(), 1)),
        KeyAction::Backspace => consume_one(ModeAction::DeleteText(ActionPosition::cursor(), -1)),
        KeyAction::Enter => consume_one(
            ModeAction::ExecuteCommand("newline-and-indent".to_owned()),
        ),
        KeyAction::DeleteWord => consume_one(ModeAction::ForwardKillWord),
        KeyAction::BackspaceWord => consume_one(ModeAction::BackwardKillWord),
        KeyAction::AlphaNumeric(c) => {
            let actions = vec![
                ModeAction::InsertText(ActionPosition::cursor(), char_string(*c)),
            ];
            assert(action_views(actions@) =~= seq![
                ModeActionView::InsertText(ActionPosition::Cursor, seq![*c]),
            ]);
            ModeResult::Annotated(actions)
        },
        KeyAction::Cancel => consume_one(ModeAction::ClearMark),
        KeyAction::Save => if saves {
            consume_one(ModeAction::Save)
        } else {
            ModeResult::Ignored
        },
        _ => ModeResult::Ignored,
    }
}

/// The mode of buffers without a file.
pub struct ScratchMode {}

impl Mode for ScratchMode {
    fn name(&self) -> (r: &str)
        ensures
            r@ == "scratch"@,
    {
        "scratch"
    }

    fn perform(&mut self, action: &KeyAction) -> (r: ModeResult)
        ensures
            r@ == editing_result(*action, false),
    {
        edit(action, false)
    }

    fn handle_mouse(&mut self, event: &MouseEvent) -> (r: ModeResult)
        ensures
            r@ == click_result(*event),
    {
        follow_click(event)
    }
}

/// The mode of buffers that visit a file.
pub struct FileMode {
    pub file_path: String,
}

impl Mode for FileMode {
    fn name(&self) -> (r: &str)
        ensures
            r@ == "file"@,
    {
        "file"
    }

    fn perform(&mut self, action: &KeyAction) -> (r: ModeResult)
        ensures
            r@ == editing_result(*action, true),
            *final(self) == *old(self),
    {
        edit(action, true)
    }

    fn handle_mouse(&mut self, event: &MouseEvent) -> (r: ModeResult)
        ensures
            r@ == click_result(*event),
            *final(self) == *old(self),
    {
        follow_click(event)
    }

    fn available_commands(&self) -> (r: Vec<Command>)
        ensures
            r@.len() == 3,
            is_mode_command(r@[0], "file"@, "save-buffer"@, "Saving file..."@),
            is_mode_command(r@[1], "file"@, "revert-buffer"@, "Reverting buffer..."@),
            is_mode_command(r@[2], "file"@, "write-file"@, "Write file not implemented yet"@),
            r@[0].description@ == "Save current buffer to file"@,
            r@[1].description@ == "Reload buffer from file, discarding changes"@,
            r@[2].description@ == "Write buffer to a new file"@,
    {
        vec![
            Command::new(
                "save-buffer",
                "Save current buffer to file",
                CommandCategory::Mode("file".to_owned()),
                CommandOutcome::Message("Saving file...".to_owned()),
            ),
            Command::new(
                "revert-buffer",
                "Reload buffer from file, discarding changes",
                CommandCategory::Mode("file".to_owned()),
                CommandOutcome::Message("Reverting buffer...".to_owned()),
            ),
            Command::new(
                "write-file",
                "Write buffer to a new file",
                CommandCategory::Mode("file".to_owned()),
                CommandOutcome::Message("Write file not implemented yet".to_owned()),
            ),
        ]
    }
}

/// Whether a command belongs to a mode, has a name and echoes a message.
pub open spec fn is_mode_command(
    command: Command,
    mode: Seq<char>,
    name: Seq<char>,
    message: Seq<char>,
) -> bool {
    &&& command.category matches CommandCategory::Mode(m) && m@ == mode
    &&& command.name@ == name
    &&& command.outcome matches CommandOutcome::Message(m) && m@ == message
}

/// The mode in which expressions are typed in and evaluated.
pub struct JuliaReplMode {
    /// What has been typed so far.
    pub current_input: String,
    pub prompt: String,
}

/// `-n`, as far as there is such a number.
pub open spec fn minus(n: nat) -> int {
    if n <= isize::MAX {
        -(n as int)
    } else {
        -(isize::MAX as int)
    }
}

fn negated(n: usize) -> (r: isize)
    ensures
        r == minus(n as nat),
{
    if n <= isize::MAX as usize {
        -(n as isize)
    } else {
        -isize::MAX
    }
}

impl JuliaReplMode {
    pub fn new() -> (r: Self)
        ensures
            r.current_input@ == Seq::<char>::empty(),
            r.prompt@ == "julia> "@,
    {
        JuliaReplMode { current_input: String::new(), prompt: "julia> ".to_owned() }
    }

    /// What a key does.
    pub open spec fn result(&self, action: KeyAction) -> ModeResultView {
        let cursor = ActionPosition::Cursor;
        let input = self.current_input@;
        let new_line = one(ModeActionView::InsertText(cursor, "\n"@ + self.prompt@));
        match action {
            KeyAction::Enter => if text::all_space(input) {
                new_line
            } else {
                ModeResultView::Consumed(
                    seq![
                        ModeActionView::InsertText(cursor, "\n"@),
                        ModeActionView::EvalJulia(input),
                    ],
                )
            },
            KeyAction::AlphaNumeric(c) => one(ModeActionView::InsertText(cursor, seq![c])),
            KeyAction::Backspace => if input.len() > 0 {
                one(ModeActionView::DeleteText(cursor, -1))
            } else {
                ModeResultView::Ignored
            },
            KeyAction::Delete => one(ModeActionView::DeleteText(cursor, 1)),
            KeyAction::Cancel => new_line,
            KeyAction::KillLine(_) => if input.len() > 0 {
                one(ModeActionView::DeleteText(cursor, minus(text::utf8_len(input))))
            } else {
                ModeResultView::Ignored
            },
            KeyAction::MarkStart => one(ModeActionView::SetMark),
            KeyAction::KillRegion(false) => one(ModeActionView::CopyRegion),
            KeyAction::Yank(index) => yank_result(index),
            _ => ModeResultView::Ignored,
        }
    }

    /// What has been typed so far, after a key.
    pub open spec fn input_after(&self, action: KeyAction) -> Seq<char> {
        let input = self.current_input@;
        match action {
            KeyAction::Enter => if text::all_space(input) {
                input
            } else {
                seq![]
            },
            KeyAction::AlphaNumeric(c) => input.push(c),
            KeyAction::Backspace => if input.len() > 0 {
                input.drop_last()
            } else {
                input
            },
            KeyAction::KillLine(_) => seq![],
            _ => input,
        }
    }

    fn start_line(&self) -> (r: ModeResult)
        ensures
            r@ == one(ModeActionView::InsertText(ActionPosition::Cursor, "\n"@ + self.prompt@)),
    {
        consume_one(
            ModeAction::InsertText(ActionPosition::cursor(), concat2("\n", self.prompt.as_str())),
        )
    }
}

impl Default for JuliaReplMode {
    fn default() -> (r: Self)
        ensures
            r.current_input@ == Seq::<char>::empty(),
            r.prompt@ == "julia> "@,
    {
        Self::new()
    }
}

impl Mode for JuliaReplMode {
    fn name(&self) -> (r: &str)
        ensures
            r@ == "julia-repl"@,
    {
        "julia-repl"
    }

    fn perform(&mut self, action: &KeyAction) -> (r: ModeResult)
        ensures
            r@ == old(self).result(*action),
            final(self).current_input@ == old(self).input_after(*action),
            final(self).prompt == old(self).prompt,
    {
        match action {
            KeyAction::Enter => {
                if is_all_space(self.current_input.as_str()) {
                    return self.start_line();
                }
                let expression = self.current_input.clone();
                self.current_input = String::new();
                let actions = vec![
                    ModeAction::InsertText(ActionPosition::cursor(), "\n".to_owned()),
                    ModeAction::EvalJulia(expression),
                ];
                assert(action_views(actions@) =~= seq![
                    ModeActionView::InsertText(ActionPosition::Cursor, "\n"@),
                    ModeActionView::EvalJulia(expression@),
                ]);
                ModeResult::Consumed(actions)
            },
            KeyAction::AlphaNumeric(c) => {
                self.current_input.push(*c);
                consume_one(ModeAction::InsertText(ActionPosition::cursor(), char_string(*c)))
            },
            KeyAction::Backspace => {
                if self.current_input.as_str().is_empty() {
                    return ModeResult::Ignored;
                }
                self.current_input = without_last(self.current_input.as_str());
                consume_one(ModeAction::DeleteText(ActionPosition::cursor(), -1))
            },
            KeyAction::Delete => consume_one(ModeAction::DeleteText(ActionPosition::cursor(), 1)),
            KeyAction::Cancel => self.start_line(),
            KeyAction::KillLine(_) => {
                if self.current_input.as_str().is_empty() {
                    self.current_input = String::new();
                    return ModeResult::Ignored;
                }
                let count = byte_len(self.current_input.as_str());
                self.current_input = String::new();
                consume_one(ModeAction::DeleteText(ActionPosition::cursor(), negated(count)))
            },
            KeyAction::MarkStart => consume_one(ModeAction::SetMark),
            KeyAction::KillRegion(destructive) => if *destructive {
                ModeResult::Ignored
            } else {
                consume_one(ModeAction::CopyRegion)
            },
            KeyAction::Yank(index) => yank_action(index),
            _ => ModeResult::Ignored,
        }
    }

    fn handle_mouse(&mut self, event: &MouseEvent) -> (r: ModeResult)
        ensures
            r@ == click_result(*event),
            *final(self) == *old(self),
    {
        follow_click(event)
    }

    fn available_commands(&self) -> (r: Vec<Command>)
        ensures
            r@.len() == 2,
            is_mode_command(r@[0], "julia-repl"@, "julia-clear-repl"@, "REPL cleared"@),
            is_mode_command(r@[1], "julia-repl"@, "julia-restart"@, "Julia runtime restarted"@),
            r@[0].description@ == "Clear the Julia REPL buffer"@,
            r@[1].description@ == "Restart the Julia runtime"@,
    {
        vec![
            Command::new(
                "julia-clear-repl",
                "Clear the Julia REPL buffer",
                CommandCategory::Mode("julia-repl".to_owned()),
                CommandOutcome::Message("REPL cleared".to_owned()),
            ),
            Command::new(
                "julia-restart",
                "Restart the Julia runtime",
                CommandCategory::Mode("julia-repl".to_owned()),
                CommandOutcome::Message("Julia runtime restarted".to_owned()),
            ),
        ]
    }
}

/// Whether `s` holds nothing but white space.
fn is_all_space(s: &str) -> (r: bool)
    ensures
        r == text::all_space(s@),
{
    let chars = str_chars(s);
    let mut i: usize = 0;
    while i < chars.len()
        invariant
            i <= chars@.len(),
            chars@ == s@,
            forall|k: int| 0 <= k < i ==> text::is_space(#[trigger] s@[k]),
        decreases chars.len() - i,
    {
        if !chars[i].is_whitespace() {
            return false;
        }
        i = i + 1;
    }
    true
}

/// The mode of the messages buffer, which is there to be read.
pub struct MessagesMode {}

/// What a key does in the messages buffer.
pub open spec fn messages_result(action: KeyAction) -> ModeResultView {
    match action {
        KeyAction::MarkStart => one(ModeActionView::SetMark),
        KeyAction::KillRegion(false) => one(ModeActionView::CopyRegion),
        KeyAction::Yank(index) => yank_result(index),
        KeyAction::Cancel => one(ModeActionView::ClearMark),
        _ => ModeResultView::Ignored,
    }
}

impl Mode for MessagesMode {
    fn name(&self) -> (r: &str)
        ensures
            r@ == "messages"@,
    {
        "messages"
    }

    fn perform(&mut self, action: &KeyAction) -> (r: ModeResult)
        ensures
            r@ == messages_result(*action),
    {
        match action {
            KeyAction::MarkStart => consume_one(ModeAction::SetMark),
            KeyAction::KillRegion(destructive) => if *destructive {
                ModeResult::Ignored
            } else {
                consume_one(ModeAction::CopyRegion)
            },
            KeyAction::Yank(index) => yank_action(index),
            KeyAction::Cancel => consume_one(ModeAction::ClearMark),
            _ => ModeResult::Ignored,
        }
    }

    fn handle_mouse(&mut self, event: &MouseEvent) -> (r: ModeResult)
        ensures
            r@ == click_result(*event),
    {
        follow_click(event)
    }

    fn available_commands(&self) -> (r: Vec<Command>)
        ensures
            r@.len() == 1,
            is_mode_command(r@[0], "messages"@, "clear-messages"@, "Messages cleared"@),
            r@[0].description@ == "Clear all messages from the messages buffer"@,
    {
        vec![
            Command::new(
                "clear-messages",
                "Clear all messages from the messages buffer",
                CommandCategory::Mode("messages".to_owned()),
                CommandOutcome::Message("Messages cleared".to_owned()),
            ),
        ]
    }
}

} // verus!
