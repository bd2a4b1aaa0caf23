//! The prompt in which a command is typed in by name.

use vstd::prelude::*;
use vstd::string::*;

use crate::command_registry;
use crate::command_registry::{filter_completions, CommandRegistry};
use crate::editor;
use crate::editor::{ChromeAction, ChromeView};
use crate::ids::BufferId;
use crate::keys::{CursorDirection, KeyAction};
use crate::mode;
use crate::mode::{
    consume_one, ActionPosition, Mode, ModeAction, ModeActionView, ModeResult, ModeResultView,
};
use crate::selection_menu;
use crate::selection_menu::{center, copy_visible, push_menu_lines, DEFAULT_VISIBLE_ITEMS};
use crate::text;
use crate::text::{
    byte_len, char_to_lowercase, chars_string, concat2, copy_strings, str_chars, str_eq,
    without_last,
};

verus! {

/// The state of the prompt.
pub struct CommandMode {
    /// What has been typed so far.
    pub input: String,
    /// The names of the commands that complete it.
    pub matches: Vec<String>,
    /// The place of the selected command among them.
    pub selected_index: usize,
    /// How many of them are shown at once.
    pub max_visible_completions: usize,
    /// The place of the first one that is shown.
    pub completion_scroll_offset: usize,
    /// The buffer in which they are shown.
    pub buffer_id: Option<BufferId>,
    /// The names of all commands.
    pub all_commands: Vec<String>,
}

/// What a key leads to.
#[derive(Debug, Clone, PartialEq, Eq)]
pub enum CommandModeResult {
    Continue,
    /// The prompt closes and the command runs.
    Execute(String),
    /// The prompt closes.
    Cancel,
}

/// How many characters two names have in common at their start, whatever the
/// case of the letters.
pub open spec fn common_prefix(a: Seq<char>, b: Seq<char>) -> nat
    decreases a.len(),
{
    if a.len() == 0 || b.len() == 0 || text::char_lowercase(a[0]) != text::char_lowercase(b[0]) {
        0
    } else {
        1 + common_prefix(a.drop_first(), b.drop_first())
    }
}

/// How many characters a name has in common with all of `others`.
pub open spec fn common_with_all(first: Seq<char>, others: Seq<Seq<char>>) -> nat
    decreases others.len(),
{
    if others.len() == 0 {
        first.len()
    } else {
        let n = common_with_all(first, others.drop_last());
        let m = common_prefix(first, others.last());
        if m < n {
            m
        } else {
            n
        }
    }
}

fn common_length(a: &Vec<char>, b: &Vec<char>) -> (n: usize)
    ensures
        n == common_prefix(a@, b@),
        n <= a@.len(),
{
    let mut n: usize = 0;
    assert(a@.skip(0) =~= a@);
    assert(b@.skip(0) =~= b@);
    while n < a.len() && n < b.len()
        invariant_except_break
            n <= a@.len(),
            n <= b@.len(),
            common_prefix(a@, b@) == n + common_prefix(a@.skip(n as int), b@.skip(n as int)),
        ensures
            n <= a@.len(),
            common_prefix(a@, b@) == n,
        decreases a.len() - n,
    {
        let x = char_to_lowercase(a[n]);
        let y = char_to_lowercase(b[n]);
        assert(a@.skip(n as int)[0] == a@[n as int]);
        assert(b@.skip(n as int)[0] == b@[n as int]);
        if !str_eq(x.as_str(), y.as_str()) {
            break;
        }
        assert(a@.skip(n as int).drop_first() =~= a@.skip(n + 1));
        assert(b@.skip(n as int).drop_first() =~= b@.skip(n + 1));
        n = n + 1;
    }
    n
}

impl CommandMode {
    /// The names that complete what has been typed; all, where that is nothing.
    pub open spec fn fitting(all: Seq<Seq<char>>, input: Seq<char>) -> Seq<Seq<char>> {
        if input.len() == 0 {
            all
        } else {
            command_registry::completions(all, input)
        }
    }

    /// Whether `after` is this prompt with other names in it, the first one
    /// selected.
    pub open spec fn refreshed(
        &self,
        after: &Self,
        input: Seq<char>,
        names: Seq<Seq<char>>,
    ) -> bool {
        &&& after.input@ == input
        &&& text::views(after.matches@) == names
        &&& after.selected_index == 0
        &&& after.completion_scroll_offset == selection_menu::centered(
            names.len(),
            self.max_visible_completions as nat,
            0,
        )
        &&& after.max_visible_completions == self.max_visible_completions
        &&& after.buffer_id == self.buffer_id
        &&& after.all_commands == self.all_commands
    }

    /// Whether `after` is this prompt with another selection.
    pub open spec fn selected(&self, after: &Self, index: int) -> bool {
        *after == (CommandMode {
            selected_index: index as usize,
            completion_scroll_offset: selection_menu::centered(
                self.matches@.len(),
                self.max_visible_completions as nat,
                index as nat,
            ) as usize,
            ..*self
        })
    }

    /// A prompt without commands.
    pub fn new() -> (r: Self)
        ensures
            r.input@ == Seq::<char>::empty(),
            r.matches@.len() == 0,
            r.selected_index == 0,
            r.max_visible_completions == DEFAULT_VISIBLE_ITEMS,
            r.completion_scroll_offset == 0,
            r.buffer_id is None,
            r.all_commands@.len() == 0,
    {
        CommandMode {
            input: String::new(),
            matches: Vec::new(),
            selected_index: 0,
            max_visible_completions: DEFAULT_VISIBLE_ITEMS,
            completion_scroll_offset: 0,
            buffer_id: None,
            all_commands: Vec::new(),
        }
    }

    /// Takes over a buffer and the names of the commands.
    pub fn init_with_buffer(&mut self, buffer_id: BufferId, commands: Vec<String>)
        ensures
            (CommandMode {
                buffer_id: Some(buffer_id),
                all_commands: commands,
                ..*old(self)
            }).refreshed(final(self), Seq::<char>::empty(), text::views(commands@)),
    {
        self.input = String::new();
        self.buffer_id = Some(buffer_id);
        self.all_commands = commands;
        self.update_matches_internal();
        assert(self.input@ =~= Seq::<char>::empty());
    }

    /// Finds the names that complete what has been typed.
    fn update_matches_internal(&mut self)
        ensures
            old(self).refreshed(
                final(self),
                old(self).input@,
                Self::fitting(text::views(old(self).all_commands@), old(self).input@),
            ),
            final(self).input == old(self).input,
    {
        self.matches = if self.input.as_str().is_empty() {
            let names = copy_strings(&self.all_commands);
            assert(text::views(names@) =~= text::views(self.all_commands@));
            names
        } else {
            filter_completions(&self.all_commands, self.input.as_str())
        };
        self.selected_index = 0;
        self.update_scroll_to_center();
    }

    /// Finds the names of the commands of a registry that complete what has been
    /// typed.
    pub fn update_matches(&mut self, registry: &CommandRegistry)
        ensures
            old(self).refreshed(
                final(self),
                old(self).input@,
                Self::fitting(
                    command_registry::command_names(registry.commands@),
                    old(self).input@,
                ),
            ),
            final(self).input == old(self).input,
    {
        self.matches = if self.input.as_str().is_empty() {
            registry.all_names()
        } else {
            registry.find_names(self.input.as_str())
        };
        self.selected_index = 0;
        self.update_scroll_to_center();
    }

    /// What the prompt looks like.
    pub open spec fn content(&self) -> Seq<char> {
        (if self.input@.len() > 0 {
            self.input@ + "\n"@
        } else {
            seq![]
        }) + selection_menu::menu_lines(
            selection_menu::visible_part(
                text::views(self.matches@),
                self.completion_scroll_offset as nat,
                self.max_visible_completions as nat,
            ),
            self.visible_place(),
        )
    }

    /// The place of the selected command among those that are shown.
    pub open spec fn visible_place(&self) -> Option<usize> {
        selection_menu::visible_selection(
            self.matches@.len(),
            self.completion_scroll_offset as nat,
            self.max_visible_completions as nat,
            self.selected_index as nat,
        )
    }

    /// What the prompt looks like.
    pub fn generate_buffer_content(&self) -> (r: String)
        ensures
            r@ == self.content(),
    {
        let mut content = String::new();
        let ghost typed: Seq<char> = if self.input@.len() > 0 {
            self.input@ + "\n"@
        } else {
            seq![]
        };
        if !self.input.as_str().is_empty() {
            content.append(self.input.as_str());
            content.append("\n");
        }
        assert(content@ =~= typed);
        let visible = self.visible_completions();
        let selected = self.visible_selection_index();
        push_menu_lines(&mut content, &visible, selected);
        content
    }

    /// Whether `after` is this prompt after a key.
    pub open spec fn typed(&self, after: &Self, action: KeyAction) -> bool {
        let all = text::views(self.all_commands@);
        match action {
            KeyAction::AlphaNumeric(c) => self.refreshed(
                after,
                self.input@.push(c),
                Self::fitting(all, self.input@.push(c)),
            ),
            KeyAction::Backspace => if self.input@.len() > 0 {
                self.refreshed(
                    after,
                    self.input@.drop_last(),
                    Self::fitting(all, self.input@.drop_last()),
                )
            } else {
                *after == *self
            },
            KeyAction::Cursor(CursorDirection::Up) => if self.matches@.len() > 0
                && self.selected_index > 0 {
                self.selected(after, self.selected_index - 1)
            } else {
                *after == *self
            },
            KeyAction::Cursor(CursorDirection::Down) => if self.selected_index + 1
                < self.matches@.len() {
                self.selected(after, self.selected_index + 1)
            } else {
                *after == *self
            },
            KeyAction::Tab => self.refreshed(
                after,
                self.completed(),
                Self::fitting(all, self.completed()),
            ),
            _ => *after == *self,
        }
    }

    /// Does what a key does to the prompt.
    fn take_key(&mut self, action: &KeyAction)
        ensures
            old(self).typed(final(self), *action),
    {
        match action {
            KeyAction::AlphaNumeric(c) => {
                self.input.push(*c);
                self.update_matches_internal();
            },
            KeyAction::Backspace => {
                if !self.input.as_str().is_empty() {
                    self.input = without_last(self.input.as_str());
                    self.update_matches_internal();
                }
            },
            KeyAction::Cursor(direction) => match direction {
                CursorDirection::Up => {
                    if self.matches.len() > 0 && self.selected_index > 0 {
                        self.selected_index = self.selected_index - 1;
                        self.update_scroll_to_center();
                    }
                },
                CursorDirection::Down => {
                    if self.matches.len() > 0 && self.selected_index < self.matches.len() - 1 {
                        self.selected_index = self.selected_index + 1;
                        self.update_scroll_to_center();
                    }
                },
                _ => (),
            },
            KeyAction::Tab => {
                self.complete_to_common_prefix();
                self.update_matches_internal();
            },
            _ => (),
        }
    }

    /// Does what a key does. Gives what that leads to.
    pub fn handle_key(&mut self, action: KeyAction, _registry: &CommandRegistry) -> (r:
        CommandModeResult)
        ensures
            old(self).typed(final(self), action),
            match action {
                KeyAction::Enter => if old(self).selected_index < old(self).matches@.len() {
                    r matches CommandModeResult::Execute(name) && name@ == old(
                        self,
                    ).matches@[old(self).selected_index as int]@
                } else {
                    r is Continue
                },
                KeyAction::Escape => r is Cancel,
                _ => r is Continue,
            },
    {
        self.take_key(&action);
        match action {
            KeyAction::Enter => match self.get_selected_command() {
                Some(name) => CommandModeResult::Execute(name),
                None => CommandModeResult::Continue,
            },
            KeyAction::Escape => CommandModeResult::Cancel,
            _ => CommandModeResult::Continue,
        }
    }

    /// The name of the selected command.
    pub fn get_selected_command(&self) -> (r: Option<String>)
        ensures
            match r {
                Some(name) => self.selected_index < self.matches@.len() && name@
                    == self.matches@[self.selected_index as int]@,
                None => self.selected_index >= self.matches@.len(),
            },
    {
        if self.selected_index < self.matches.len() {
            Some(self.matches[self.selected_index].clone())
        } else {
            None
        }
    }

    /// Centers the list on the selection.
    fn update_scroll_to_center(&mut self)
        ensures
            old(self).selected(final(self), old(self).selected_index as int),
            final(self).completion_scroll_offset == selection_menu::centered(
                old(self).matches@.len(),
                old(self).max_visible_completions as nat,
                old(self).selected_index as nat,
            ),
    {
        self.completion_scroll_offset = center(
            self.matches.len(),
            self.max_visible_completions,
            self.selected_index,
        );
    }

    /// The names that are shown.
    pub fn visible_completions(&self) -> (r: Vec<String>)
        ensures
            text::views(r@) == selection_menu::visible_part(
                text::views(self.matches@),
                self.completion_scroll_offset as nat,
                self.max_visible_completions as nat,
            ),
    {
        copy_visible(&self.matches, self.completion_scroll_offset, self.max_visible_completions)
    }

    /// The place of the selected command among those that are shown.
    pub fn visible_selection_index(&self) -> (r: Option<usize>)
        ensures
            r == self.visible_place(),
    {
        if self.matches.len() == 0 {
            return None;
        }
        if self.selected_index >= self.completion_scroll_offset && self.selected_index
            - self.completion_scroll_offset < self.max_visible_completions {
            Some(self.selected_index - self.completion_scroll_offset)
        } else {
            None
        }
    }

    /// What has been typed, completed as far as all names agree. It stays where
    /// that is no longer.
    pub open spec fn completed(&self) -> Seq<char> {
        let names = text::views(self.matches@);
        if names.len() <= 1 {
            self.input@
        } else {
            let n = common_with_all(names[0], names.drop_first());
            let common = names[0].take(n as int);
            if text::utf8_len(common) > text::utf8_len(self.input@) {
                common
            } else {
                self.input@
            }
        }
    }

    /// Completes what has been typed as far as all names agree.
    fn complete_to_common_prefix(&mut self)
        ensures
            final(self).input@ == old(self).completed(),
            *final(self) == (CommandMode { input: final(self).input, ..*old(self) }),
    {
        if self.matches.len() <= 1 {
            return;
        }
        let first = str_chars(self.matches[0].as_str());
        let ghost names = text::views(self.matches@);
        let ghost others = names.drop_first();
        let mut n: usize = first.len();
        let mut i: usize = 1;
        assert(others.take(0) =~= seq![]);
        while i < self.matches.len()
            invariant
                1 <= i <= self.matches@.len(),
                *self == *old(self),
                names == text::views(self.matches@),
                others == names.drop_first(),
                first@ == names[0],
                n == common_with_all(names[0], others.take(i - 1)),
                n <= first@.len(),
            decreases self.matches.len() - i,
        {
            let other = str_chars(self.matches[i].as_str());
            let m = common_length(&first, &other);
            proof {
                assert(others.take(i as int).drop_last() =~= others.take(i - 1));
                assert(others.take(i as int).last() == other@);
            }
            if m < n {
                n = m;
            }
            i = i + 1;
        }
        assert(others.take(i - 1) =~= others);
        let common = chars_string(&first, 0, n);
        assert(common@ =~= names[0].take(n as int));
        if byte_len(common.as_str()) > byte_len(self.input.as_str()) {
            self.input = common;
        }
    }

    /// What is shown where one types.
    pub fn get_prompt_line(&self) -> (r: String)
        ensures
            r@ == self.input@,
    {
        self.input.clone()
    }

    /// Runs the first command with a name, if there is one.
    pub fn execute_command(command_name: &str, registry: &CommandRegistry) -> (r: Result<
        Vec<ChromeAction>,
        String,
    >)
        ensures
            (exists|i: int|
                #![trigger registry.commands@[i]]
                {
                    &&& 0 <= i < registry.commands@.len()
                    &&& registry.commands@[i].name@ == command_name@
                    &&& forall|j: int|
                        0 <= j < i ==> (#[trigger] registry.commands@[j]).name@ != command_name@
                    &&& command_registry::came_to(registry.commands@[i].outcome, r)
                }) || {
                &&& r matches Err(e) && e@ == "Command not found: "@ + command_name@
                &&& forall|j: int|
                    0 <= j < registry.commands@.len() ==> (#[trigger] registry.commands@[j]).name@
                        != command_name@
            },
    {
        match registry.get_command(command_name) {
            Some(command) => command.execute(),
            None => Err(concat2("Command not found: ", command_name)),
        }
    }

    /// What a key comes to, where `after` is the prompt after it.
    pub open spec fn result(&self, after: &Self, action: KeyAction) -> ModeResultView {
        let redraw = ModeResultView::Consumed(
            seq![
                ModeActionView::ClearText,
                ModeActionView::InsertText(ActionPosition::Absolute(0, 0), after.content()),
            ],
        );
        match action {
            KeyAction::AlphaNumeric(_) => redraw,
            KeyAction::Backspace => if self.input@.len() > 0 {
                redraw
            } else {
                ModeResultView::Ignored
            },
            KeyAction::Cursor(CursorDirection::Up) => redraw,
            KeyAction::Cursor(CursorDirection::Down) => redraw,
            KeyAction::Tab => redraw,
            KeyAction::Enter => if self.selected_index < self.matches@.len() {
                mode::one(
                    ModeActionView::ExecuteCommand(
                        self.matches@[self.selected_index as int]@,
                    ),
                )
            } else {
                ModeResultView::Ignored
            },
            _ => ModeResultView::Ignored,
        }
    }

    fn redraw(&self) -> (r: ModeResult)
        ensures
            r@ == ModeResultView::Consumed(
                seq![
                    ModeActionView::ClearText,
                    ModeActionView::InsertText(ActionPosition::Absolute(0, 0), self.content()),
                ],
            ),
    {
        let content = self.generate_buffer_content();
        let actions = vec![
            ModeAction::ClearText,
            ModeAction::InsertText(ActionPosition::start(), content),
        ];
        assert(mode::action_views(actions@) =~= seq![
            ModeActionView::ClearText,
            ModeActionView::InsertText(ActionPosition::Absolute(0, 0), content@),
        ]);
        ModeResult::Consumed(actions)
    }
}

impl Default for CommandMode {
    fn default() -> (r: Self)
        ensures
            r.input@ == Seq::<char>::empty(),
            r.matches@.len() == 0,
            r.max_visible_completions == DEFAULT_VISIBLE_ITEMS,
            r.all_commands@.len() == 0,
    {
        Self::new()
    }
}

impl Mode for CommandMode {
    fn name(&self) -> (r: &str)
        ensures
            r@ == "command"@,
    {
        "command"
    }

    fn perform(&mut self, action: &KeyAction) -> (r: ModeResult)
        ensures
            old(self).typed(final(self), *action),
            r@ == old(self).result(final(self), *action),
    {
        let had_input = !self.input.as_str().is_empty();
        self.take_key(action);
        match action {
            KeyAction::AlphaNumeric(_) => self.redraw(),
            KeyAction::Backspace => if had_input {
                self.redraw()
            } else {
                ModeResult::Ignored
            },
            KeyAction::Cursor(direction) => match direction {
                CursorDirection::Up => self.redraw(),
                CursorDirection::Down => self.redraw(),
                _ => ModeResult::Ignored,
            },
            KeyAction::Tab => self.redraw(),
            KeyAction::Enter => match self.get_selected_command() {
                Some(name) => consume_one(ModeAction::ExecuteCommand(name)),
                None => ModeResult::Ignored,
            },
            _ => ModeResult::Ignored,
        }
    }
}

} // verus!
