//! The expressions by which scripts are called, and the steps of a command.

use vstd::prelude::*;
use vstd::string::*;

use crate::julia_runtime;
use crate::julia_runtime::{
    decode_command_result, JuliaCommandContext, JuliaCommandResult, JuliaValue, TaskOutcome,
};
use crate::text;
use crate::text::{join_lines, quote, str_chars};
use crate::text_dict::{TextDict, TextEntry};

verus! {

// --- Expressions ---

/// A character as it stands in the literal of a text.
pub open spec fn written(c: char) -> Seq<char> {
    if c == '"' || c == '\\' || c == '$' {
        seq!['\\', c]
    } else if c == '\n' {
        seq!['\\', 'n']
    } else if c == '\r' {
        seq!['\\', 'r']
    } else if c == '\0' {
        seq!['\\', 'x', '0', '0']
    } else {
        seq![c]
    }
}

/// A text as it stands between the quotes of its literal.
pub open spec fn all_written(s: Seq<char>) -> Seq<char>
    decreases s.len(),
{
    if s.len() == 0 {
        seq![]
    } else {
        all_written(s.drop_last()) + written(s.last())
    }
}

/// The literal of a text, in which nothing is filled in.
pub open spec fn literal(s: Seq<char>) -> Seq<char> {
    seq!['"'] + all_written(s) + seq!['"']
}

/// The literal of a text, in which nothing is filled in.
pub fn text_literal(s: &str) -> (r: String)
    ensures
        r@ == literal(s@),
{
    let chars = str_chars(s);
    let mut r = String::new();
    r.push('"');
    let mut i: usize = 0;
    assert(s@.take(0) =~= seq![]);
    assert(r@ =~= seq!['"'] + all_written(s@.take(0)));
    while i < chars.len()
        invariant
            i <= chars@.len(),
            chars@ == s@,
            r@ == seq!['"'] + all_written(s@.take(i as int)),
        decreases chars.len() - i,
    {
        assert(s@.take(i + 1).drop_last() =~= s@.take(i as int));
        let ghost before = r@;
        let c = chars[i];
        if c == '"' || c == '\\' || c == '$' {
            r.push('\\');
            r.push(c);
        } else if c == '\n' {
            r.push('\\');
            r.push('n');
        } else if c == '\r' {
            r.push('\\');
            r.push('r');
        } else if c == '\0' {
            r.push('\\');
            r.push('x');
            r.push('0');
            r.push('0');
        } else {
            r.push(c);
        }
        assert(r@ =~= before + written(c));
        assert(r@ =~= seq!['"'] + all_written(s@.take(i + 1)));
        i = i + 1;
    }
    assert(s@.take(i as int) =~= s@);
    r.push('"');
    assert(r@ =~= literal(s@));
    r
}

/// An expression that calls a function.
pub open spec fn call(function: Seq<char>, arguments: Seq<Seq<char>>) -> Seq<char> {
    function + "("@ + text::joined(arguments, ", "@) + ")"@
}

/// An expression that calls a function.
pub fn call_expression(function: &str, arguments: &Vec<String>) -> (r: String)
    ensures
        r@ == call(function@, text::views(arguments@)),
{
    let mut r = function.to_owned();
    r.append("(");
    r.append(join_lines(arguments, ", ").as_str());
    r.append(")");
    r
}

/// An entry as it stands in the expression of a dictionary.
pub open spec fn entry_written(e: TextEntry) -> Seq<char> {
    literal(e.key@) + " => "@ + literal(e.value@)
}

/// The expression that makes a dictionary.
pub open spec fn dictionary(entries: Seq<TextEntry>) -> Seq<char> {
    call("Dict{String, String}"@, entries.map_values(|e: TextEntry| entry_written(e)))
}

/// The expression that makes a dictionary.
pub fn dictionary_expression(dict: &TextDict) -> (r: String)
    ensures
        r@ == dictionary(dict.entries@),
{
    let ghost all = dict.entries@.map_values(|e: TextEntry| entry_written(e));
    let mut parts: Vec<String> = Vec::new();
    let mut i: usize = 0;
    assert(text::views(parts@) =~= all.take(0));
    while i < dict.entries.len()
        invariant
            i <= dict.entries@.len(),
            all == dict.entries@.map_values(|e: TextEntry| entry_written(e)),
            text::views(parts@) == all.take(i as int),
        decreases dict.entries.len() - i,
    {
        let ghost before = text::views(parts@);
        let mut part = text_literal(dict.entries[i].key.as_str());
        part.append(" => ");
        part.append(text_literal(dict.entries[i].value.as_str()).as_str());
        parts.push(part);
        assert(text::views(parts@) =~= before.push(part@));
        assert(all[i as int] == part@);
        assert(text::views(parts@) =~= all.take(i + 1));
        i = i + 1;
    }
    assert(all.take(i as int) =~= all);
    call_expression("Dict{String, String}", &parts)
}

// --- The module of the scripts ---

/// How the loading of a module ends with an answer of the interpreter, to its
/// file being run or, with `using`, to its names being brought in. It goes on
/// where there is a value.
pub open spec fn loading_ends(
    path: Seq<char>,
    using: bool,
    answer: TaskOutcome<JuliaValue>,
    r: Option<TaskOutcome<Result<(), String>>>,
) -> bool {
    match answer {
        TaskOutcome::NotDispatched => r matches Some(TaskOutcome::NotDispatched),
        TaskOutcome::NotFinished => r matches Some(TaskOutcome::NotFinished),
        TaskOutcome::Failed(e) => r matches Some(TaskOutcome::Done(Err(m))) && m@ == if using {
            "Failed 'using .Roe': "@ + e@
        } else {
            "Failed to include "@ + text::quoted(path) + ": "@ + e@
        },
        TaskOutcome::Done(_) => r is None,
    }
}

/// How the loading of a module ends with an answer of the interpreter.
pub fn end_loading(path: &str, using: bool, answer: TaskOutcome<JuliaValue>) -> (r: Option<
    TaskOutcome<Result<(), String>>,
>)
    ensures
        loading_ends(path@, using, answer, r),
{
    match answer {
        TaskOutcome::NotDispatched => Some(TaskOutcome::NotDispatched),
        TaskOutcome::NotFinished => Some(TaskOutcome::NotFinished),
        TaskOutcome::Failed(e) => {
            let mut m = if using {
                "Failed 'using .Roe': ".to_owned()
            } else {
                let mut m = "Failed to include ".to_owned();
                m.append(quote(path).as_str());
                m.append(": ");
                m
            };
            m.append(e.as_str());
            Some(TaskOutcome::Done(Err(m)))
        },
        TaskOutcome::Done(_) => None,
    }
}

// --- Commands ---

/// What is asked next of the interpreter.
#[derive(Debug, Clone, Copy, PartialEq, Eq, Structural)]
pub enum CallStage {
    /// Whether the module of the scripts is there.
    Module,
    /// Whether it can call commands.
    Function,
    /// For the dictionary of what the command is told.
    Context,
    /// For the command itself.
    Command,
}

/// What is to be done about a command.
#[derive(Debug)]
pub enum CallStep {
    /// An expression is to be evaluated, and its value handed in.
    Evaluate(String),
    /// The command is over.
    Finish(TaskOutcome<JuliaCommandResult>),
}

/// A command that is being called.
#[derive(Debug)]
pub struct CommandCall {
    pub name: String,
    pub context: JuliaCommandContext,
    pub stage: CallStage,
}

/// Whether a step ends a command with an error.
pub open spec fn ends_in_error(step: CallStep, why: Seq<char>) -> bool {
    step matches CallStep::Finish(TaskOutcome::Done(JuliaCommandResult::Error(m))) && m@ == why
}

impl CommandCall {
    pub fn new(name: String, context: JuliaCommandContext) -> (r: Self)
        ensures
            r == (CommandCall { name, context, stage: CallStage::Module }),
    {
        CommandCall { name, context, stage: CallStage::Module }
    }

    /// What is evaluated at the present stage.
    pub open spec fn question(&self) -> Seq<char> {
        match self.stage {
            CallStage::Module => "isdefined(Main, :Roe)"@,
            CallStage::Function => "isdefined(Main.Roe, :call_command)"@,
            CallStage::Context => self.context.expression(),
            CallStage::Command => call(
                "Roe.call_command"@,
                seq![literal(self.name@), self.context.expression()],
            ),
        }
    }

    /// What is evaluated at the present stage.
    pub fn ask(&self) -> (r: String)
        ensures
            r@ == self.question(),
    {
        match self.stage {
            CallStage::Module => "isdefined(Main, :Roe)".to_owned(),
            CallStage::Function => "isdefined(Main.Roe, :call_command)".to_owned(),
            CallStage::Context => self.context.to_expression(),
            CallStage::Command => {
                let arguments = vec![
                    text_literal(self.name.as_str()),
                    self.context.to_expression(),
                ];
                assert(text::views(arguments@) =~= seq![
                    literal(self.name@),
                    self.context.expression(),
                ]);
                call_expression("Roe.call_command", &arguments)
            },
        }
    }

    /// Whether `after` is this command at another stage, and `step` asks for what
    /// is evaluated there.
    pub open spec fn asks_at(&self, after: &Self, stage: CallStage, step: CallStep) -> bool {
        &&& *after == (CommandCall { stage, ..*self })
        &&& step matches CallStep::Evaluate(s) && s@ == after.question()
    }

    /// What an answer of the interpreter leads to. Work that was not handed over
    /// or did not end ends the command as such; an error tells what is missing.
    pub open spec fn stepped(
        &self,
        after: &Self,
        answer: TaskOutcome<JuliaValue>,
        step: CallStep,
    ) -> bool {
        match (self.stage, answer) {
            (_, TaskOutcome::NotDispatched) => *after == *self && step == CallStep::Finish(
                TaskOutcome::NotDispatched,
            ),
            (_, TaskOutcome::NotFinished) => *after == *self && step == CallStep::Finish(
                TaskOutcome::NotFinished,
            ),
            (CallStage::Module, TaskOutcome::Done(JuliaValue::Bool(true))) => self.asks_at(
                after,
                CallStage::Function,
                step,
            ),
            (CallStage::Module, _) => *after == *self && ends_in_error(
                step,
                "Roe module not loaded"@,
            ),
            (CallStage::Function, TaskOutcome::Done(JuliaValue::Bool(true))) => self.asks_at(
                after,
                CallStage::Context,
                step,
            ),
            (CallStage::Function, _) => *after == *self && ends_in_error(
                step,
                "call_command function not found"@,
            ),
            (CallStage::Context, TaskOutcome::Done(_)) => self.asks_at(
                after,
                CallStage::Command,
                step,
            ),
            (CallStage::Context, _) => *after == *self && ends_in_error(
                step,
                "Failed to create context Dict"@,
            ),
            (CallStage::Command, TaskOutcome::Done(v)) => *after == *self && (step matches CallStep::Finish(
                TaskOutcome::Done(r),
            ) && julia_runtime::command_decoded(Some(v), r)),
            (CallStage::Command, _) => *after == *self && (step matches CallStep::Finish(
                TaskOutcome::Done(r),
            ) && julia_runtime::command_decoded(None, r)),
        }
    }

    fn go_on(&mut self, stage: CallStage) -> (step: CallStep)
        ensures
            old(self).asks_at(final(self), stage, step),
    {
        self.stage = stage;
        CallStep::Evaluate(self.ask())
    }

    /// Takes what the interpreter answered.
    pub fn step(&mut self, answer: TaskOutcome<JuliaValue>) -> (step: CallStep)
        ensures
            old(self).stepped(final(self), answer, step),
    {
        let value = match answer {
            TaskOutcome::NotDispatched => {
                return CallStep::Finish(TaskOutcome::NotDispatched);
            },
            TaskOutcome::NotFinished => {
                return CallStep::Finish(TaskOutcome::NotFinished);
            },
            TaskOutcome::Failed(_) => None,
            TaskOutcome::Done(value) => Some(value),
        };
        let yes = match &value {
            Some(v) => match v {
                JuliaValue::Bool(b) => *b,
                _ => false,
            },
            None => false,
        };
        match self.stage {
            CallStage::Module => if yes {
                self.go_on(CallStage::Function)
            } else {
                failed("Roe module not loaded")
            },
            CallStage::Function => if yes {
                self.go_on(CallStage::Context)
            } else {
                failed("call_command function not found")
            },
            CallStage::Context => if value.is_some() {
                self.go_on(CallStage::Command)
            } else {
                failed("Failed to create context Dict")
            },
            CallStage::Command => CallStep::Finish(
                TaskOutcome::Done(decode_command_result(value.as_ref())),
            ),
        }
    }
}

fn failed(why: &str) -> (step: CallStep)
    ensures
        ends_in_error(step, why@),
{
    CallStep::Finish(TaskOutcome::Done(JuliaCommandResult::Error(why.to_owned())))
}

} // verus!
