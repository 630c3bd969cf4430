use vstd::prelude::*;

use crate::text::same_text;

verus! {

/// The text shown for `--help`, and when no argument is given.
pub const USAGE: &'static str = "Generate gitignore\n\
    \n\
    Usage: git ignore <lang1> <lang2> ...\n\
    \n\
    Example:\n    \
    # Generate gitignore for nodejs and save it to `.gitignore`\n    \
    $ git ignore node > .gitignore\n\
    \n    \
    # Generate gitignore for rust and python and append it to `.gitignore`\n    \
    $ git ignore rust python >> .gitignore\n\
    \n    \
    # Configure gitignore repository path\n    \
    $ git config --global ignore.path <path>\n\
    \n\
    Options:\n  \
    -h, --help                       Print this help message\n  \
    -V, --version                    Print version information and exit\n      \
    --repo                       Print gitignore repository path and exit\n      \
    --list                       List all available gitignore files\n  \
    -c, --completion <bash|zsh|fish> Generate completion script for bash, zsh or fish\n      \
    --register                   Register `git-ignore` command as git subcommand";

/// The text shown when `--completion` names no known shell.
pub const SHELL_USAGE: &'static str = "Please specify correct shell name.\n\
    \n\
    Usage:   git ignore --completion <bash|zsh|fish>\n\
    Example: git ignore --completion bash";

/// A shell that completion scripts exist for.
#[derive(PartialEq, Eq, Structural, Clone, Copy, Debug)]
pub enum Shell {
    Bash,
    Zsh,
    Fish,
}

/// What the command line asks for.
#[derive(PartialEq, Eq, Structural, Clone, Copy, Debug)]
pub enum CliCommand {
    /// Print the usage text.
    Help,
    /// Print the version.
    Version,
    /// Print the mirror's path.
    Repo,
    /// Print the key of every template.
    List,
    /// Print the completion script of the shell; with no known shell, the
    /// shell usage text.
    Completion(Option<Shell>),
    /// Register the program as a git subcommand.
    Register,
    /// Generate the `.gitignore` of the templates that the arguments name.
    Generate,
}

/// The shell that a name stands for.
pub open spec fn shell_named(name: Seq<char>) -> Option<Shell> {
    if name == "bash"@ {
        Some(Shell::Bash)
    } else if name == "zsh"@ {
        Some(Shell::Zsh)
    } else if name == "fish"@ {
        Some(Shell::Fish)
    } else {
        None
    }
}

/// What the arguments (the program's name left out) ask for: an option in
/// first place decides, anything else is a list of template names.
pub open spec fn command_for(args: Seq<String>) -> CliCommand {
    let first = args[0]@;
    if first == "--help"@ || first == "-h"@ {
        CliCommand::Help
    } else if first == "--version"@ || first == "-V"@ {
        CliCommand::Version
    } else if first == "--repo"@ {
        CliCommand::Repo
    } else if first == "--list"@ {
        CliCommand::List
    } else if first == "-c"@ || first == "--completion"@ {
        CliCommand::Completion(
            if args.len() > 1 {
                shell_named(args[1]@)
            } else {
                None
            },
        )
    } else if first == "--register"@ {
        CliCommand::Register
    } else {
        CliCommand::Generate
    }
}

/// The usage text.
pub fn help() -> (r: String)
    ensures
        r@ == USAGE@,
{
    String::from_str(USAGE)
}

/// The usage text of `--completion`.
pub fn shell_help() -> (r: String)
    ensures
        r@ == SHELL_USAGE@,
{
    String::from_str(SHELL_USAGE)
}

fn shell_of(name: &str) -> (r: Option<Shell>)
    ensures
        r == shell_named(name@),
{
    if same_text(name, "bash") {
        Some(Shell::Bash)
    } else if same_text(name, "zsh") {
        Some(Shell::Zsh)
    } else if same_text(name, "fish") {
        Some(Shell::Fish)
    } else {
        None
    }
}

/// Reads the command line, the program's name left out.
pub fn parse_args(args: &[String]) -> (r: CliCommand)
    requires
        args@.len() >= 1,
    ensures
        r == command_for(args@),
{
    let first = args[0].as_str();
    if same_text(first, "--help") || same_text(first, "-h") {
        CliCommand::Help
    } else if same_text(first, "--version") || same_text(first, "-V") {
        CliCommand::Version
    } else if same_text(first, "--repo") {
        CliCommand::Repo
    } else if same_text(first, "--list") {
        CliCommand::List
    } else if same_text(first, "-c") || same_text(first, "--completion") {
        if args.len() > 1 {
            CliCommand::Completion(shell_of(args[1].as_str()))
        } else {
            CliCommand::Completion(None)
        }
    } else if same_text(first, "--register") {
        CliCommand::Register
    } else {
        CliCommand::Generate
    }
}

} // verus!
