//! Commands: a program, its arguments, and what is set in its environment.
use vstd::prelude::*;

use crate::os_text::{OsText, OsTextView};
use crate::text::{append_list, no_texts, push_pair, push_text, text3, text_pairs, texts, Text};

verus! {

/// A command to run.
#[derive(Debug)]
pub struct Command {
    /// The program.
    pub program: OsText,
    /// The arguments.
    pub args: Vec<String>,
    /// The variables that are set for the command.
    pub env: Vec<(String, String)>,
}

/// What a command holds.
#[verifier::ext_equal]
pub struct CommandView {
    /// The program.
    pub program: OsTextView,
    /// The arguments.
    pub args: Seq<Text>,
    /// The variables that are set for the command.
    pub env: Seq<(Text, Text)>,
}

impl View for Command {
    type V = CommandView;

    open spec fn view(&self) -> CommandView {
        CommandView {
            program: self.program@,
            args: texts(self.args@),
            env: text_pairs(self.env@),
        }
    }
}

/// The pairs of a list, copied.
pub fn copy_pairs(list: &Vec<(String, String)>) -> (r: Vec<(String, String)>)
    ensures
        text_pairs(r@) == text_pairs(list@),
{
    let mut r: Vec<(String, String)> = Vec::new();
    let mut i: usize = 0;
    while i < list.len()
        invariant
            i <= list@.len(),
            text_pairs(r@) == text_pairs(list@).take(i as int),
        decreases list@.len() - i,
    {
        push_pair(&mut r, list[i].0.clone(), list[i].1.clone());
        assert(text_pairs(list@)[i as int] == (list@[i as int].0@, list@[i as int].1@));
        assert(text_pairs(list@).take(i + 1) =~= text_pairs(list@).take(i as int).push(
            text_pairs(list@)[i as int],
        ));
        i = i + 1;
    }
    assert(text_pairs(r@) =~= text_pairs(list@));
    r
}

impl Command {
    /// A command without arguments, with an environment.
    pub fn new(program: &OsText, env: &Vec<(String, String)>) -> (r: Command)
        ensures
            r@ == (CommandView {
                program: program@,
                args: Seq::empty(),
                env: text_pairs(env@),
            }),
    {
        Command { program: program.copy(), args: no_texts(), env: copy_pairs(env) }
    }

    /// One more argument.
    pub fn arg(&mut self, arg: &str)
        ensures
            final(self)@ == (CommandView { args: old(self)@.args.push(arg@), ..old(self)@ }),
    {
        push_text(&mut self.args, arg.to_owned());
    }

    /// More arguments.
    pub fn append_args(&mut self, args: &Vec<String>)
        ensures
            final(self)@ == (CommandView { args: old(self)@.args + texts(args@), ..old(self)@ }),
    {
        append_list(&mut self.args, args);
    }
}

/// The program of a command, as it is read, and then its arguments.
pub open spec fn command_line(cmd: CommandView) -> Seq<Text> {
    seq![cmd.program.text] + cmd.args
}

/// The program of a command, as it is read, and then its arguments.
pub fn command_arguments(cmd: &Command) -> (r: Vec<String>)
    ensures
        texts(r@) == command_line(cmd@),
{
    let mut r: Vec<String> = no_texts();
    push_text(&mut r, cmd.program.as_str().to_owned());
    assert(texts(r@) =~= seq![cmd@.program.text]);
    append_list(&mut r, &cmd.args);
    r
}

/// What is reported where a command of a target failed.
pub fn run_failure(target_name: &str) -> (r: String)
    ensures
        r@ == "failed to build native C++ target `"@ + target_name@ + "`"@,
{
    text3("failed to build native C++ target `", target_name, "`")
}

} // verus!
