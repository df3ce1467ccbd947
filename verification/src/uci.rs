//! The system's configuration tool, as far as this library goes: the
//! arguments with which the tool is run for each operation, and what the
//! outcome of a run means. Running the tool is left to the caller.

use vstd::prelude::*;
use vstd::string::StringExecFns;
use crate::text::{string_views, trim, trimmed};

verus! {

/// The configuration tool.
pub struct Uci;

/// What a run of a command left behind.
#[derive(Debug)]
pub struct CommandOutput {
    /// Whether the command ended with success.
    pub success: bool,
    /// The exit code, where the command ended by itself.
    pub code: Option<i32>,
    /// What the command wrote to its standard output.
    pub stdout: String,
    /// What the command wrote to its standard error.
    pub stderr: String,
}

/// Mathematical value of a [`CommandOutput`].
pub struct CommandOutputView {
    pub success: bool,
    pub code: Option<i32>,
    pub stdout: Seq<char>,
    pub stderr: Seq<char>,
}

impl View for CommandOutput {
    type V = CommandOutputView;

    open spec fn view(&self) -> CommandOutputView {
        CommandOutputView {
            success: self.success,
            code: self.code,
            stdout: self.stdout@,
            stderr: self.stderr@,
        }
    }
}

/// The two arguments of an operation on one name.
fn pair(op: &str, name: String) -> (r: Vec<String>)
    ensures
        string_views(r@) == seq![op@, name@],
{
    let mut r: Vec<String> = Vec::new();
    r.push(op.to_owned());
    r.push(name);
    assert(string_views(r@) =~= seq![op@, name@]);
    r
}

/// The outcome of an operation that gives nothing back: success, or what the
/// tool wrote to its standard error, without the white space around it.
fn done(ok: bool, output: &CommandOutput) -> (r: Result<(), String>)
    ensures
        ok ==> r is Ok,
        !ok ==> r is Err && r->Err_0@ == trim(output@.stderr),
{
    if ok {
        Ok(())
    } else {
        Err(trimmed(output.stderr.as_str()))
    }
}

impl Uci {
    /// The arguments with which the tool reads the value of `key`.
    pub fn get_args(key: &str) -> (r: Vec<String>)
        ensures
            string_views(r@) == seq!["get"@, key@],
    {
        pair("get", key.to_owned())
    }

    /// The arguments with which the tool sets `key` to `value`.
    pub fn set_args(key: &str, value: &str) -> (r: Vec<String>)
        ensures
            string_views(r@) == seq!["set"@, key@ + seq!['='] + value@],
    {
        let mut arg = key.to_owned();
        arg.push('=');
        arg.append(value);
        assert(arg@ =~= key@ + seq!['='] + value@);
        pair("set", arg)
    }

    /// The arguments with which the tool deletes `key`.
    pub fn delete_args(key: &str) -> (r: Vec<String>)
        ensures
            string_views(r@) == seq!["delete"@, key@],
    {
        pair("delete", key.to_owned())
    }

    /// The arguments with which the tool commits the changes to `config`.
    pub fn commit_args(config: &str) -> (r: Vec<String>)
        ensures
            string_views(r@) == seq!["commit"@, config@],
    {
        pair("commit", config.to_owned())
    }

    /// The value that a run of `get` read: what the tool wrote to its
    /// standard output where it succeeded, and what it wrote to its standard
    /// error where it did not, either without the white space around it.
    pub fn get(output: &CommandOutput) -> (r: Result<String, String>)
        ensures
            output@.success ==> r is Ok && r->Ok_0@ == trim(output@.stdout),
            !output@.success ==> r is Err && r->Err_0@ == trim(output@.stderr),
    {
        if output.success {
            Ok(trimmed(output.stdout.as_str()))
        } else {
            Err(trimmed(output.stderr.as_str()))
        }
    }

    /// The outcome of a run of `set`.
    pub fn set(output: &CommandOutput) -> (r: Result<(), String>)
        ensures
            output@.success ==> r is Ok,
            !output@.success ==> r is Err && r->Err_0@ == trim(output@.stderr),
    {
        done(output.success, output)
    }

    /// Whether a run of `delete` counts as done: it succeeded, or it ended
    /// with code 1, which says that there was nothing to delete.
    pub open spec fn spec_deleted(output: CommandOutputView) -> bool {
        output.success || output.code == Some(1i32)
    }

    /// The outcome of a run of `delete`.
    pub fn delete(output: &CommandOutput) -> (r: Result<(), String>)
        ensures
            Self::spec_deleted(output@) ==> r is Ok,
            !Self::spec_deleted(output@) ==> r is Err && r->Err_0@ == trim(output@.stderr),
    {
        let ok = output.success || match output.code {
            Some(code) => code == 1,
            None => false,
        };
        done(ok, output)
    }

    /// The outcome of a run of `commit`.
    pub fn commit(output: &CommandOutput) -> (r: Result<(), String>)
        ensures
            output@.success ==> r is Ok,
            !output@.success ==> r is Err && r->Err_0@ == trim(output@.stderr),
    {
        done(output.success, output)
    }
}

/// One step of a change to the system's configuration.
#[derive(Debug)]
pub enum Command {
    /// Set `key` to `value`.
    Assign { key: String, value: String },
    /// Delete `key`.
    Delete { key: String },
    /// Commit the changes to `config`.
    Commit { config: String },
    /// Take the interface `name` down.
    InterfaceDown { name: String },
    /// Bring the interface `name` up.
    InterfaceUp { name: String },
}

/// Mathematical value of a [`Command`].
pub enum CommandView {
    Assign { key: Seq<char>, value: Seq<char> },
    Delete { key: Seq<char> },
    Commit { config: Seq<char> },
    InterfaceDown { name: Seq<char> },
    InterfaceUp { name: Seq<char> },
}

impl View for Command {
    type V = CommandView;

    open spec fn view(&self) -> CommandView {
        match self {
            Command::Assign { key, value } => CommandView::Assign { key: key@, value: value@ },
            Command::Delete { key } => CommandView::Delete { key: key@ },
            Command::Commit { config } => CommandView::Commit { config: config@ },
            Command::InterfaceDown { name } => CommandView::InterfaceDown { name: name@ },
            Command::InterfaceUp { name } => CommandView::InterfaceUp { name: name@ },
        }
    }
}

/// The values of a list of commands.
pub open spec fn command_views(plan: Seq<Command>) -> Seq<CommandView> {
    plan.map_values(|c: Command| c@)
}

impl Command {
    /// Whether the change stops where this step fails. A deletion and taking
    /// an interface down may fail: there may have been nothing to delete or
    /// to take down.
    pub open spec fn spec_must_succeed(c: CommandView) -> bool {
        !(c is Delete || c is InterfaceDown)
    }

    /// Whether the change stops where this step fails.
    pub fn must_succeed(&self) -> (r: bool)
        ensures
            r == Self::spec_must_succeed(self@),
    {
        match self {
            Command::Delete { .. } => false,
            Command::InterfaceDown { .. } => false,
            _ => true,
        }
    }
}

/// Adds `c` at the end of `plan`.
pub fn push_command(plan: &mut Vec<Command>, c: Command)
    ensures
        command_views(final(plan)@) == command_views(old(plan)@).push(c@),
{
    let ghost before = plan@;
    let ghost v = c@;
    plan.push(c);
    assert(command_views(plan@) =~= command_views(before).push(v));
}

} // verus!
