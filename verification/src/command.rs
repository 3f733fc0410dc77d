//! Command lines as plain values.
use vstd::prelude::*;

verus! {

/// The kinds of system that the shells tell apart.
#[derive(Clone, Copy, Debug, PartialEq, Eq, Structural)]
pub enum Platform {
    /// Windows.
    Windows,
    /// Any other system.
    Unix,
}

/// A program and its arguments.
#[derive(Debug)]
pub struct CommandLine {
    /// The program, as a path or as a name to be found on `PATH`.
    pub program: String,
    /// Its arguments, in order.
    pub args: Vec<String>,
    /// Whether it is kept from opening a console window of its own.
    pub no_window: bool,
}

/// What a [`CommandLine`] says.
pub struct CommandText {
    /// The program.
    pub program: Seq<char>,
    /// Its arguments.
    pub args: Seq<Seq<char>>,
    /// Whether it is kept from opening a console window of its own.
    pub no_window: bool,
}

/// The characters of each of `strings`.
pub open spec fn texts(strings: Seq<String>) -> Seq<Seq<char>> {
    strings.map_values(|s: String| s@)
}

/// Adds `arg` as the last of `args`.
pub fn push_arg(args: &mut Vec<String>, arg: &str)
    ensures
        texts(final(args)@) == texts(old(args)@).push(arg@),
{
    args.push(arg.to_owned());
    assert(texts(args@) =~= texts(old(args)@).push(arg@));
}

impl View for CommandLine {
    type V = CommandText;

    open spec fn view(&self) -> CommandText {
        CommandText { program: self.program@, args: texts(self.args@), no_window: self.no_window }
    }
}

impl CommandLine {
    /// `program` without arguments.
    pub fn new(program: String, no_window: bool) -> (command: CommandLine)
        ensures
            command@ == (CommandText { program: program@, args: seq![], no_window }),
    {
        let command = CommandLine { program, args: Vec::new(), no_window };
        assert(command@.args =~= seq![]);
        command
    }

    /// Adds `arg` as the last argument.
    pub fn arg(&mut self, arg: &str)
        ensures
            final(self)@ == (CommandText {
                args: old(self)@.args.push(arg@),
                ..old(self)@
            }),
    {
        push_arg(&mut self.args, arg);
    }
}

/// What is said of a command is what is run: its program, each of its arguments
/// in its place, character for character, and no others.
pub proof fn law_command_says_what_is_run(command: CommandLine, i: int)
    ensures
        command@.program == command.program@,
        command@.no_window == command.no_window,
        command@.args.len() == command.args@.len(),
        0 <= i < command.args@.len() ==> command@.args[i] == command.args@[i]@,
{
}

/// The arguments as texts are the arguments, each in its place, and no others.
pub proof fn law_texts_are_the_arguments(args: Seq<String>, i: int)
    ensures
        texts(args).len() == args.len(),
        0 <= i < args.len() ==> texts(args)[i] == args[i]@,
{
}

} // verus!
