//! The commands that install the packages a new project depends on.
//!
//! The commands are built here and run by the caller.

use crate::text::{join, joined};
use vstd::prelude::*;
use vstd::string::*;

verus! {

/// The packages that the application needs.
pub const PACKAGES: [&'static str; 6] = [
    "auto_route",
    "flutter_riverpod",
    "logger",
    "responsive_framework",
    "intl",
    "flutter_dotenv",
];

/// The packages that only the development of the application needs.
pub const DEV_PACKAGES: [&'static str; 3] = [
    "build_runner",
    "auto_route_generator",
    "riverpod_lint",
];

/// What the command that adds packages starts with.
pub const PUB_ADD: &'static str = "flutter pub add ";

/// What the command that adds development packages starts with.
pub const PUB_ADD_DEV: &'static str = "flutter pub add --dev ";

/// What stands between two packages in a command.
pub const SPACE: &'static str = " ";

/// The shell of Windows.
pub const CMD: &'static str = "cmd";

/// The flag that has `cmd` run a line.
pub const CMD_RUN: &'static str = "/C";

/// The shell of the other systems.
pub const SH: &'static str = "sh";

/// The flag that has `sh` run a line.
pub const SH_RUN: &'static str = "-c";

/// A command for the shell of the host, as plain data.
pub ghost struct CommandModel {
    /// The shell.
    pub program: Seq<char>,
    /// Its arguments.
    pub args: Seq<Seq<char>>,
}

/// A command for the shell of the host.
#[derive(Debug, PartialEq, Eq)]
pub struct ShellCommand {
    /// The shell.
    pub program: String,
    /// Its arguments: the flag that makes the shell run a line, then the line.
    pub args: Vec<String>,
}

impl View for ShellCommand {
    type V = CommandModel;

    open spec fn view(&self) -> CommandModel {
        CommandModel { program: self.program@, args: self.args.deep_view() }
    }
}

impl DeepView for ShellCommand {
    type V = CommandModel;

    open spec fn deep_view(&self) -> CommandModel {
        self.view()
    }
}

/// The line that installs the packages of the application, or, with `dev`,
/// those of its development: the command, then the packages with one space
/// between them.
pub open spec fn install_line(dev: bool) -> Seq<char> {
    if dev {
        PUB_ADD_DEV@ + joined(DEV_PACKAGES.deep_view(), SPACE@)
    } else {
        PUB_ADD@ + joined(PACKAGES.deep_view(), SPACE@)
    }
}

/// The command that has the shell of the host run `line`: `cmd /C` on
/// Windows, `sh -c` elsewhere.
pub open spec fn shell_invocation(windows: bool, line: Seq<char>) -> CommandModel {
    if windows {
        CommandModel { program: CMD@, args: seq![CMD_RUN@, line] }
    } else {
        CommandModel { program: SH@, args: seq![SH_RUN@, line] }
    }
}

/// The line that installs the packages of the application, or, with `dev`,
/// those of its development.
pub fn install_command(dev: bool) -> (line: String)
    ensures
        line@ == install_line(dev),
{
    if dev {
        let mut line = PUB_ADD_DEV.to_owned();
        let list = join(DEV_PACKAGES.as_slice(), SPACE);
        line.append(list.as_str());
        line
    } else {
        let mut line = PUB_ADD.to_owned();
        let list = join(PACKAGES.as_slice(), SPACE);
        line.append(list.as_str());
        line
    }
}

/// The command that has the shell of the host run `line`.
pub fn shell_command(windows: bool, line: String) -> (command: ShellCommand)
    ensures
        command@ == shell_invocation(windows, line@),
{
    let mut args: Vec<String> = Vec::new();
    let program = if windows {
        args.push(CMD_RUN.to_owned());
        CMD.to_owned()
    } else {
        args.push(SH_RUN.to_owned());
        SH.to_owned()
    };
    args.push(line);
    let command = ShellCommand { program, args };
    proof {
        assert(command@.args =~= shell_invocation(windows, line@).args);
    }
    command
}

/// The two commands that install the dependencies of a new project, in the
/// order in which they are run: the packages of the application, then those
/// of its development. `windows` says which shell the host has.
pub fn add_dependencies(windows: bool) -> (commands: Vec<ShellCommand>)
    ensures
        commands.deep_view() == seq![
            shell_invocation(windows, install_line(false)),
            shell_invocation(windows, install_line(true)),
        ],
{
    let mut commands: Vec<ShellCommand> = Vec::new();
    commands.push(shell_command(windows, install_command(false)));
    commands.push(shell_command(windows, install_command(true)));
    proof {
        assert(commands.deep_view() =~= seq![
            shell_invocation(windows, install_line(false)),
            shell_invocation(windows, install_line(true)),
        ]);
    }
    commands
}

} // verus!
