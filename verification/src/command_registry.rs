//! Commands that can be run by name.

use vstd::prelude::*;
use vstd::string::*;

use crate::editor;
use crate::editor::{ChromeAction, ChromeView};
use crate::text;
use crate::text::{str_eq, str_starts_with, to_lowercase};

verus! {

/// Where a command belongs.
#[derive(Debug, Clone, PartialEq, Eq)]
pub enum CommandCategory {
    Global,
    /// To the mode of that name.
    Mode(String),
}

/// What comes of a command when it runs.
#[derive(Debug, Clone, PartialEq, Eq)]
pub enum CommandOutcome {
    /// It echoes a message.
    Message(String),
    /// It fails.
    Failure(String),
}

/// A command and what comes of it when it runs.
#[derive(Debug, Clone)]
pub struct Command {
    pub name: String,
    pub description: String,
    pub category: CommandCategory,
    pub outcome: CommandOutcome,
}

/// Whether `r` is what comes of a command.
pub open spec fn came_to(
    outcome: CommandOutcome,
    r: Result<Vec<ChromeAction>, String>,
) -> bool {
    match outcome {
        CommandOutcome::Message(message) => r matches Ok(actions) && editor::chrome_views(actions@) == seq![
            ChromeView::Echo(message@),
        ],
        CommandOutcome::Failure(why) => r matches Err(e) && e@ == why@,
    }
}

impl Command {
    pub fn new(
        name: &str,
        description: &str,
        category: CommandCategory,
        outcome: CommandOutcome,
    ) -> (r: Self)
        ensures
            r.name@ == name@,
            r.description@ == description@,
            r.category == category,
            r.outcome == outcome,
    {
        Command {
            name: name.to_owned(),
            description: description.to_owned(),
            category,
            outcome,
        }
    }

    /// Runs the command.
    pub fn execute(&self) -> (r: Result<Vec<ChromeAction>, String>)
        ensures
            came_to(self.outcome, r),
    {
        match &self.outcome {
            CommandOutcome::Message(message) => {
                let actions = vec![ChromeAction::Echo(message.clone())];
                assert(editor::chrome_views(actions@) =~= seq![ChromeView::Echo(message@)]);
                Ok(actions)
            },
            CommandOutcome::Failure(why) => Err(why.clone()),
        }
    }
}

/// Whether a name starts with a prefix, whatever the case of the letters.
pub open spec fn completes(name: Seq<char>, prefix: Seq<char>) -> bool {
    text::starts_with(text::lowercase(name), text::lowercase(prefix))
}

/// Whether a name starts with a prefix, whatever the case of the letters.
pub fn is_completion(name: &str, prefix: &str) -> (r: bool)
    ensures
        r == completes(name@, prefix@),
{
    let a = to_lowercase(name);
    let b = to_lowercase(prefix);
    str_starts_with(a.as_str(), b.as_str())
}

/// The commands that are known.
#[derive(Debug)]
pub struct CommandRegistry {
    pub commands: Vec<Command>,
}

/// The names of commands.
pub open spec fn command_names(commands: Seq<Command>) -> Seq<Seq<char>> {
    commands.map_values(|c: Command| c.name@)
}

/// The names among `names` that complete a prefix, in order.
pub open spec fn completions(names: Seq<Seq<char>>, prefix: Seq<char>) -> Seq<Seq<char>>
    decreases names.len(),
{
    if names.len() == 0 {
        seq![]
    } else if completes(names.last(), prefix) {
        completions(names.drop_last(), prefix).push(names.last())
    } else {
        completions(names.drop_last(), prefix)
    }
}

impl CommandRegistry {
    pub fn new() -> (r: Self)
        ensures
            r.commands@.len() == 0,
    {
        CommandRegistry { commands: Vec::new() }
    }

    /// Adds a command.
    pub fn register(&mut self, command: Command)
        ensures
            final(self).commands@ == old(self).commands@.push(command),
    {
        self.commands.push(command);
    }

    /// The first command with a name.
    pub fn get_command(&self, name: &str) -> (r: Option<&Command>)
        ensures
            match r {
                Some(c) => exists|i: int|
                    #![trigger self.commands@[i]]
                    {
                        &&& 0 <= i < self.commands@.len()
                        &&& self.commands@[i] == *c
                        &&& c.name@ == name@
                        &&& forall|j: int|
                            0 <= j < i ==> (#[trigger] self.commands@[j]).name@ != name@
                    },
                None => forall|j: int|
                    0 <= j < self.commands@.len() ==> (#[trigger] self.commands@[j]).name@ != name@,
            },
    {
        let mut i: usize = 0;
        while i < self.commands.len()
            invariant
                i <= self.commands@.len(),
                forall|j: int| 0 <= j < i ==> (#[trigger] self.commands@[j]).name@ != name@,
            decreases self.commands.len() - i,
        {
            if str_eq(self.commands[i].name.as_str(), name) {
                assert(self.commands@[i as int].name@ == name@);
                return Some(&self.commands[i]);
            }
            i = i + 1;
        }
        None
    }

    /// The names of all commands.
    pub fn all_names(&self) -> (r: Vec<String>)
        ensures
            text::views(r@) == command_names(self.commands@),
    {
        let mut r: Vec<String> = Vec::new();
        let mut i: usize = 0;
        while i < self.commands.len()
            invariant
                i <= self.commands@.len(),
                text::views(r@) == command_names(self.commands@.take(i as int)),
            decreases self.commands.len() - i,
        {
            let ghost before = r@;
            r.push(self.commands[i].name.clone());
            assert(text::views(r@) =~= text::views(before).push(self.commands@[i as int].name@));
            assert(command_names(self.commands@.take(i + 1)) =~= command_names(
                self.commands@.take(i as int),
            ).push(self.commands@[i as int].name@));
            i = i + 1;
        }
        assert(self.commands@.take(i as int) =~= self.commands@);
        r
    }

    /// The names of the commands that complete a prefix.
    pub fn find_names(&self, prefix: &str) -> (r: Vec<String>)
        ensures
            text::views(r@) == completions(command_names(self.commands@), prefix@),
    {
        let names = self.all_names();
        filter_completions(&names, prefix)
    }
}

/// The names among `names` that complete a prefix.
pub fn filter_completions(names: &Vec<String>, prefix: &str) -> (r: Vec<String>)
    ensures
        text::views(r@) == completions(text::views(names@), prefix@),
{
    let mut r: Vec<String> = Vec::new();
    let mut i: usize = 0;
    let ghost all = text::views(names@);
    assert(all.take(0) =~= seq![]);
    assert(text::views(r@) =~= seq![]);
    while i < names.len()
        invariant
            i <= names@.len(),
            all == text::views(names@),
            text::views(r@) == completions(all.take(i as int), prefix@),
        decreases names.len() - i,
    {
        assert(all.take(i + 1).drop_last() =~= all.take(i as int));
        assert(all.take(i + 1).last() == names@[i as int]@);
        let ghost before = r@;
        if is_completion(names[i].as_str(), prefix) {
            r.push(names[i].clone());
            assert(text::views(r@) =~= text::views(before).push(names@[i as int]@));
        }
        i = i + 1;
    }
    assert(all.take(i as int) =~= all);
    r
}

/// The commands that are always there.
pub fn create_default_registry() -> (r: CommandRegistry)
    ensures
        command_names(r.commands@) == seq![
            "quit"@,
            "save-buffer"@,
            "find-file"@,
            "switch-buffer"@,
            "kill-buffer"@,
            "split-window-horizontally"@,
            "split-window-vertically"@,
            "delete-window"@,
            "delete-other-windows"@,
            "other-window"@,
        ],
        forall|i: int|
            0 <= i < r.commands@.len() ==> (#[trigger] r.commands@[i]).category
                == CommandCategory::Global,
{
    let mut r = CommandRegistry::new();
    r.register(Command::new("quit", "Leave the editor", CommandCategory::Global, CommandOutcome::Message("Quit".to_owned())));
    r.register(
        Command::new(
            "save-buffer",
            "Save current buffer to file",
            CommandCategory::Global,
            CommandOutcome::Message("Saving file...".to_owned()),
        ),
    );
    r.register(Command::new("find-file", "Open a file", CommandCategory::Global, CommandOutcome::Message("Find file".to_owned())));
    r.register(
        Command::new(
            "switch-buffer",
            "Show another buffer",
            CommandCategory::Global,
            CommandOutcome::Message("Switch buffer".to_owned()),
        ),
    );
    r.register(
        Command::new("kill-buffer", "Close a buffer", CommandCategory::Global, CommandOutcome::Message("Kill buffer".to_owned())),
    );
    r.register(
        Command::new(
            "split-window-horizontally",
            "Split the window into two, one above the other",
            CommandCategory::Global,
            CommandOutcome::Message("Split window".to_owned()),
        ),
    );
    r.register(
        Command::new(
            "split-window-vertically",
            "Split the window into two, side by side",
            CommandCategory::Global,
            CommandOutcome::Message("Split window".to_owned()),
        ),
    );
    r.register(
        Command::new("delete-window", "Close the window", CommandCategory::Global, CommandOutcome::Message("Delete window".to_owned())),
    );
    r.register(
        Command::new(
            "delete-other-windows",
            "Close all windows but this one",
            CommandCategory::Global,
            CommandOutcome::Message("Delete other windows".to_owned()),
        ),
    );
    r.register(
        Command::new(
            "other-window",
            "Go to the next window",
            CommandCategory::Global,
            CommandOutcome::Message("Other window".to_owned()),
        ),
    );
    assert(command_names(r.commands@) =~= seq![
        "quit"@,
        "save-buffer"@,
        "find-file"@,
        "switch-buffer"@,
        "kill-buffer"@,
        "split-window-horizontally"@,
        "split-window-vertically"@,
        "delete-window"@,
        "delete-other-windows"@,
        "other-window"@,
    ]);
    r
}

} // verus!
