//! The commands that ask the compositor for text.
//!
//! The library starts no process. It fixes the program and the arguments of
//! each command and hands them to a `CommandExecutor`, which the caller
//! brings; whatever the executor answers is the answer of the command.

use vstd::prelude::*;

verus! {

/// Runs a program with arguments and gives back what it printed, or the text
/// of a failure.
pub trait CommandExecutor {
    fn execute(&self, program: &str, args: &[&str]) -> Result<String, String>;
}

/// The arguments as sequences of characters.
pub open spec fn words_of(args: Seq<&str>) -> Seq<Seq<char>> {
    args.map_values(|a: &str| a@)
}

/// `answer` is what `executor` gave when it was asked to run the program
/// `niri` with the arguments `args`.
pub open spec fn answered<E: CommandExecutor>(
    executor: &E,
    args: &[&str],
    answer: Result<String, String>,
) -> bool {
    call_ensures(E::execute, (executor, "niri", args), answer)
}

/// `answer` is what `executor` gave when it was asked to run the program
/// `niri` with arguments that read `words`.
pub open spec fn answered_to<E: CommandExecutor>(
    executor: &E,
    words: Seq<Seq<char>>,
    answer: Result<String, String>,
) -> bool {
    exists|args: &[&str]| words_of(args@) == words && #[trigger] answered(executor, args, answer)
}

/// Asks `executor` to run `niri` with `args`, once, and returns its answer.
pub fn execute_niri_command_with_executor<E: CommandExecutor>(executor: &E, args: &[&str]) -> (answer:
    Result<String, String>)
    ensures
        answered(executor, args, answer),
{
    executor.execute("niri", args)
}

/// Asks for the help text of `niri msg`.
pub fn execute_niri_help<E: CommandExecutor>(executor: &E) -> (answer: Result<String, String>)
    ensures
        answered_to(executor, seq!["msg"@, "--help"@], answer),
{
    let words = ["msg", "--help"];
    let args = words.as_slice();
    assert(words_of(args@) == seq!["msg"@, "--help"@]);
    execute_niri_command_with_executor(executor, args)
}

/// Asks for the description of all outputs.
pub fn get_outputs<E: CommandExecutor>(executor: &E) -> (answer: Result<String, String>)
    ensures
        answered_to(executor, seq!["msg"@, "outputs"@], answer),
{
    let words = ["msg", "outputs"];
    let args = words.as_slice();
    assert(words_of(args@) == seq!["msg"@, "outputs"@]);
    execute_niri_command_with_executor(executor, args)
}

/// Asks for the list of workspaces.
pub fn get_workspaces<E: CommandExecutor>(executor: &E) -> (answer: Result<String, String>)
    ensures
        answered_to(executor, seq!["msg"@, "workspaces"@], answer),
{
    let words = ["msg", "workspaces"];
    let args = words.as_slice();
    assert(words_of(args@) == seq!["msg"@, "workspaces"@]);
    execute_niri_command_with_executor(executor, args)
}

/// Asks for the version of the compositor.
pub fn get_version<E: CommandExecutor>(executor: &E) -> (answer: Result<String, String>)
    ensures
        answered_to(executor, seq!["msg"@, "version"@], answer),
{
    let words = ["msg", "version"];
    let args = words.as_slice();
    assert(words_of(args@) == seq!["msg"@, "version"@]);
    execute_niri_command_with_executor(executor, args)
}

} // verus!
