//! Commands for the operating system's tools, and what their outcomes mean.
//!
//! Nothing here runs a command. A caller runs the `Invocation` it is handed
//! and reports back with a `CommandOutcome`.

use crate::error::{DnsError, DnsErrorView};
use crate::text::{contains_text, str_concat, str_contains, str_trim, string_views, trimmed};
use vstd::prelude::*;

verus! {

/// A program to start, with its arguments in order.
#[derive(Clone, Debug)]
pub struct Invocation {
    pub program: String,
    pub args: Vec<String>,
}

/// The mathematical value of an `Invocation`.
pub struct InvocationView {
    pub program: Seq<char>,
    pub args: Seq<Seq<char>>,
}

impl View for Invocation {
    type V = InvocationView;

    open spec fn view(&self) -> InvocationView {
        InvocationView { program: self.program@, args: string_views(self.args@) }
    }
}

/// How an attempt to run a command ended.
#[derive(Clone, Debug)]
pub enum CommandOutcome {
    /// The system refused to start the program for want of permission.
    LaunchDenied,
    /// The program could not be started for the reason given.
    LaunchFailed(String),
    /// The program did not end within the time it was given.
    TimedOut,
    /// The program ran to its end.
    Finished { success: bool, stdout: String, stderr: String },
}

/// The mathematical value of a `CommandOutcome`.
pub enum OutcomeView {
    LaunchDenied,
    LaunchFailed(Seq<char>),
    TimedOut,
    Finished { success: bool, stdout: Seq<char>, stderr: Seq<char> },
}

impl View for CommandOutcome {
    type V = OutcomeView;

    open spec fn view(&self) -> OutcomeView {
        match self {
            CommandOutcome::LaunchDenied => OutcomeView::LaunchDenied,
            CommandOutcome::LaunchFailed(reason) => OutcomeView::LaunchFailed(reason@),
            CommandOutcome::TimedOut => OutcomeView::TimedOut,
            CommandOutcome::Finished { success, stdout, stderr } => OutcomeView::Finished {
                success: *success,
                stdout: stdout@,
                stderr: stderr@,
            },
        }
    }
}

/// The directory that is taken for the system's root where none is given.
pub open spec fn default_system_root() -> Seq<char> {
    "C:\\Windows"@
}

/// The system's root directory: the one given, or the default.
pub open spec fn system_root_or_default(system_root: Option<Seq<char>>) -> Seq<char> {
    match system_root {
        Some(root) => root,
        None => default_system_root(),
    }
}

/// Where the PowerShell interpreter lies below the system's root.
pub open spec fn powershell_suffix() -> Seq<char> {
    "\\System32\\WindowsPowerShell\\v1.0\\powershell.exe"@
}

/// Where the command interpreter lies below the system's root.
pub open spec fn cmd_suffix() -> Seq<char> {
    "\\System32\\cmd.exe"@
}

/// The invocation that hands `command` to PowerShell: without the user's
/// profile and without prompts.
pub open spec fn powershell_call(system_root: Option<Seq<char>>, command: Seq<char>) -> InvocationView {
    InvocationView {
        program: system_root_or_default(system_root) + powershell_suffix(),
        args: seq!["-NoProfile"@, "-NonInteractive"@, "-Command"@, command],
    }
}

/// The invocation that hands `command` to the command interpreter.
pub open spec fn cmd_call(system_root: Option<Seq<char>>, command: Seq<char>) -> InvocationView {
    InvocationView {
        program: system_root_or_default(system_root) + cmd_suffix(),
        args: seq!["/C"@, command],
    }
}

/// The message for a program that the system refused to start.
pub open spec fn launch_denied_message() -> Seq<char> {
    "Permission denied. Please run as administrator."@
}

/// The message for a command that reported that access was denied.
pub open spec fn access_denied_message() -> Seq<char> {
    "Access denied. Administrator rights required."@
}

/// The message for a command that reported any other failure.
pub open spec fn command_failed_message() -> Seq<char> {
    "Command execution failed"@
}

/// The message for a program that did not end in time.
pub open spec fn timed_out_message() -> Seq<char> {
    "Operation timed out"@
}

/// The message for a program that could not be started for `reason`.
pub open spec fn launch_failed_message(reason: Seq<char>) -> Seq<char> {
    "Failed to execute command: "@ + reason
}

/// What a PowerShell command's outcome means to its caller: the trimmed
/// output of a command that succeeded, else a message. A program that could
/// not be started, or did not end in time, is told apart from a command
/// that ran and reported failure. Of what a failed
/// command wrote, nothing is passed on: a report that access was denied
/// becomes one fixed message, any other failure another.
pub open spec fn powershell_meaning(outcome: OutcomeView) -> Result<Seq<char>, Seq<char>> {
    match outcome {
        OutcomeView::LaunchDenied => Err(launch_denied_message()),
        OutcomeView::LaunchFailed(reason) => Err(launch_failed_message(reason)),
        OutcomeView::TimedOut => Err(timed_out_message()),
        OutcomeView::Finished { success, stdout, stderr } => if success {
            Ok(trimmed(stdout))
        } else if contains_text(trimmed(stderr), "Access is denied"@) {
            Err(access_denied_message())
        } else {
            Err(command_failed_message())
        },
    }
}

/// What the outcome of a command of the command interpreter means to its
/// caller: as for PowerShell, but every reported failure gives the same
/// message.
pub open spec fn cmd_meaning(outcome: OutcomeView) -> Result<Seq<char>, Seq<char>> {
    match outcome {
        OutcomeView::LaunchDenied => Err(launch_denied_message()),
        OutcomeView::LaunchFailed(reason) => Err(launch_failed_message(reason)),
        OutcomeView::TimedOut => Err(timed_out_message()),
        OutcomeView::Finished { success, stdout, stderr } => if success {
            Ok(trimmed(stdout))
        } else {
            Err(command_failed_message())
        },
    }
}

/// The view of a result that holds strings.
pub open spec fn result_view(r: Result<String, String>) -> Result<Seq<char>, Seq<char>> {
    match r {
        Ok(text) => Ok(text@),
        Err(message) => Err(message@),
    }
}

/// The view of an optional string.
pub open spec fn option_view(o: Option<String>) -> Option<Seq<char>> {
    match o {
        Some(text) => Some(text@),
        None => None,
    }
}

fn root_or_default(system_root: Option<&str>) -> (root: &str)
    ensures
        root@ == system_root_or_default(
            match system_root {
                Some(r) => Some(r@),
                None => None,
            },
        ),
{
    match system_root {
        Some(root) => root,
        None => "C:\\Windows",
    }
}

/// The invocation that hands `command` to PowerShell. `system_root` is the
/// system's root directory, where the caller knows it.
pub fn powershell_invocation(system_root: Option<&str>, command: &str) -> (call: Invocation)
    ensures
        call@ == powershell_call(
            match system_root {
                Some(r) => Some(r@),
                None => None,
            },
            command@,
        ),
{
    let program = str_concat(
        root_or_default(system_root),
        "\\System32\\WindowsPowerShell\\v1.0\\powershell.exe",
    );
    let mut args: Vec<String> = Vec::new();
    args.push("-NoProfile".to_owned());
    args.push("-NonInteractive".to_owned());
    args.push("-Command".to_owned());
    args.push(command.to_owned());
    let call = Invocation { program, args };
    assert(call@.args =~= seq!["-NoProfile"@, "-NonInteractive"@, "-Command"@, command@]);
    call
}

/// The invocation that hands `command` to the command interpreter.
pub fn cmd_invocation(system_root: Option<&str>, command: &str) -> (call: Invocation)
    ensures
        call@ == cmd_call(
            match system_root {
                Some(r) => Some(r@),
                None => None,
            },
            command@,
        ),
{
    let program = str_concat(root_or_default(system_root), "\\System32\\cmd.exe");
    let mut args: Vec<String> = Vec::new();
    args.push("/C".to_owned());
    args.push(command.to_owned());
    let call = Invocation { program, args };
    assert(call@.args =~= seq!["/C"@, command@]);
    call
}

fn launch_result(outcome: &CommandOutcome) -> (r: Option<String>)
    ensures
        match outcome@ {
            OutcomeView::LaunchDenied => option_view(r) == Some(launch_denied_message()),
            OutcomeView::LaunchFailed(reason) => option_view(r) == Some(
                launch_failed_message(reason),
            ),
            OutcomeView::TimedOut => option_view(r) == Some(timed_out_message()),
            _ => r is None,
        },
{
    match outcome {
        CommandOutcome::LaunchDenied => Some(
            "Permission denied. Please run as administrator.".to_owned(),
        ),
        CommandOutcome::LaunchFailed(reason) => Some(
            str_concat("Failed to execute command: ", reason.as_str()),
        ),
        CommandOutcome::TimedOut => Some("Operation timed out".to_owned()),
        _ => None,
    }
}

/// What a PowerShell command's outcome means to its caller.
pub fn powershell_result(outcome: &CommandOutcome) -> (r: Result<String, String>)
    ensures
        result_view(r) == powershell_meaning(outcome@),
{
    match outcome {
        CommandOutcome::Finished { success, stdout, stderr } => {
            if *success {
                Ok(str_trim(stdout.as_str()))
            } else if str_contains(str_trim(stderr.as_str()).as_str(), "Access is denied") {
                Err("Access denied. Administrator rights required.".to_owned())
            } else {
                Err("Command execution failed".to_owned())
            }
        },
        _ => match launch_result(outcome) {
            Some(message) => Err(message),
            None => Err("Command execution failed".to_owned()),
        },
    }
}

/// What the outcome of a command of the command interpreter means to its
/// caller.
pub fn cmd_result(outcome: &CommandOutcome) -> (r: Result<String, String>)
    ensures
        result_view(r) == cmd_meaning(outcome@),
{
    match outcome {
        CommandOutcome::Finished { success, stdout, stderr } => {
            if *success {
                Ok(str_trim(stdout.as_str()))
            } else {
                Err("Command execution failed".to_owned())
            }
        },
        _ => match launch_result(outcome) {
            Some(message) => Err(message),
            None => Err("Command execution failed".to_owned()),
        },
    }
}

/// The kind of failure that `outcome` of running `command` stands for,
/// `None` where the command succeeded. A program that could not be started
/// is told apart from one that ran and reported failure; want of rights
/// is one kind however it showed. Of what a failed command wrote nothing is
/// carried along.
pub open spec fn failure_meaning(outcome: OutcomeView, command: Seq<char>) -> Option<
    DnsErrorView,
> {
    match outcome {
        OutcomeView::LaunchDenied => Some(DnsErrorView::PermissionDenied),
        OutcomeView::LaunchFailed(reason) => Some(
            DnsErrorView::Other(launch_failed_message(reason)),
        ),
        OutcomeView::TimedOut => Some(DnsErrorView::Timeout),
        OutcomeView::Finished { success, stdout, stderr } => if success {
            None
        } else if contains_text(trimmed(stderr), "Access is denied"@) {
            Some(DnsErrorView::PermissionDenied)
        } else {
            Some(DnsErrorView::CommandFailed { command, stderr: command_failed_message() })
        },
    }
}

/// The view of an optional error.
pub open spec fn failure_view(failure: Option<DnsError>) -> Option<DnsErrorView> {
    match failure {
        Some(error) => Some(error@),
        None => None,
    }
}

/// The kind of failure that `outcome` of running `command` stands for.
pub fn failure_of(outcome: &CommandOutcome, command: &str) -> (r: Option<DnsError>)
    ensures
        failure_view(r) == failure_meaning(outcome@, command@),
        r is Some <==> powershell_meaning(outcome@) is Err,
        r is Some <==> cmd_meaning(outcome@) is Err,
{
    match outcome {
        CommandOutcome::LaunchDenied => Some(DnsError::PermissionDenied),
        CommandOutcome::LaunchFailed(reason) => Some(
            DnsError::Other(str_concat("Failed to execute command: ", reason.as_str())),
        ),
        CommandOutcome::TimedOut => Some(DnsError::Timeout),
        CommandOutcome::Finished { success, stdout, stderr } => {
            if *success {
                None
            } else if str_contains(str_trim(stderr.as_str()).as_str(), "Access is denied") {
                Some(DnsError::PermissionDenied)
            } else {
                Some(
                    DnsError::CommandFailed {
                        command: command.to_owned(),
                        stderr: "Command execution failed".to_owned(),
                    },
                )
            }
        },
    }
}

} // verus!
