//! Installing packages from a declarative list.
//!
//! A list names packages with their sources and the commands that run
//! before and after the installation.  This module turns a list into the
//! commands that install it, in the order in which they run.

use crate::command::{command, Command, CommandOutput, CommandView};
use crate::text::texts;
use vstd::prelude::*;
use vstd::string::*;

verus! {

/// Why packages could not be installed.
#[derive(Debug)]
pub enum PackageError {
    /// The operating system failed.
    Io(String),
    /// The list is malformed.
    ParseError(String),
    /// A command ended with a failure.
    OperationFailed(String),
}

/// What an error says, as a line of text.
pub open spec fn described(e: PackageError) -> Seq<char> {
    match e {
        PackageError::Io(m) => "I/O error: "@ + m@,
        PackageError::ParseError(m) => "Failed to parse package list: "@ + m@,
        PackageError::OperationFailed(m) => "Package operation failed: "@ + m@,
    }
}

impl PackageError {
    /// What the error says, as a line of text.
    pub fn describe(&self) -> (r: String)
        ensures
            r@ == described(*self),
    {
        match self {
            PackageError::Io(m) => {
                let mut out = String::from_str("I/O error: ");
                out.append(m.as_str());
                out
            },
            PackageError::ParseError(m) => {
                let mut out = String::from_str("Failed to parse package list: ");
                out.append(m.as_str());
                out
            },
            PackageError::OperationFailed(m) => {
                let mut out = String::from_str("Package operation failed: ");
                out.append(m.as_str());
                out
            },
        }
    }
}

/// What follows a command of an installation.
#[derive(Debug)]
pub enum InstallStep {
    /// Run the command at this place of the list of commands.
    Run(usize),
    /// Every command ended well: the installation is over.
    Finished,
    /// A command failed: the installation is over, with this error.
    Failed(PackageError),
}

/// The message for a command that ended with a failure.
pub open spec fn command_failure(program: Seq<char>, stderr: Seq<char>) -> Seq<char> {
    "Command '"@ + program + "' failed: "@ + stderr
}

/// The message for the failure of the command at place `index`: that of the
/// command, and for a line of a hook the step and the line before it.
pub open spec fn install_failure(
    list: PackageList,
    command: CommandView,
    index: int,
    stderr: Seq<char>,
) -> Seq<char> {
    let failed = command_failure(command.program, stderr);
    let before = hook_commands(list.pre_install).len();
    let hook = if index < before {
        Some("pre-install"@)
    } else if index >= before + package_commands(list.packages@).len() && index
        < install_commands(list).len() {
        Some("post-install"@)
    } else {
        None
    };
    match hook {
        Some(step) if command.args.len() > 1 => step + " command failed: "@ + command.args[1]
            + " - "@ + ("Package operation failed: "@ + failed),
        _ => failed,
    }
}

/// A package with its constraints.
#[derive(Debug)]
pub struct PackageSpec {
    /// The name of the package.
    pub name: String,
    /// The version that is asked for.
    pub version: Option<String>,
    /// Where the package comes from.
    pub source: Option<String>,
    /// Options for the installation.
    pub options: Option<Vec<String>>,
}

/// A list of packages.
#[derive(Debug)]
pub struct PackageList {
    /// The packages to install.
    pub packages: Vec<PackageSpec>,
    /// The commands that run before the installation.
    pub pre_install: Option<Vec<String>>,
    /// The commands that run after the installation.
    pub post_install: Option<Vec<String>>,
}

/// Installs packages.
#[derive(Debug)]
pub struct PackageManager {
    base_path: String,
    verbose: bool,
}

/// True for a package that the helper for the user repository installs: one
/// that names that repository as its source, or no source at all.
pub open spec fn is_aur(p: PackageSpec) -> bool {
    match p.source {
        Some(s) => s@ == "aur"@,
        None => true,
    }
}

/// How a package is named to the package manager of the distribution: its
/// name, and its version after a blank where one is asked for.
pub open spec fn official_arg(p: PackageSpec) -> Seq<char> {
    match p.version {
        Some(v) => p.name@ + " "@ + v@,
        None => p.name@,
    }
}

/// How a package is named to the helper for the user repository: its name,
/// and its version after an `@` where one is asked for.
pub open spec fn aur_arg(p: PackageSpec) -> Seq<char> {
    match p.version {
        Some(v) => p.name@ + "@"@ + v@,
        None => p.name@,
    }
}

/// The names of the first `upto` packages of one kind, with a blank
/// between them.
pub open spec fn joined_args(packages: Seq<PackageSpec>, aur: bool, upto: nat) -> Seq<char>
    decreases upto,
{
    if upto == 0 {
        Seq::empty()
    } else {
        let before = joined_args(packages, aur, (upto - 1) as nat);
        let p = packages[upto - 1];
        if is_aur(p) == aur {
            let arg = if aur {
                aur_arg(p)
            } else {
                official_arg(p)
            };
            if count_of(packages, aur, (upto - 1) as nat) == 0 {
                arg
            } else {
                before + " "@ + arg
            }
        } else {
            before
        }
    }
}

/// How many of the first `upto` packages are of one kind.
pub open spec fn count_of(packages: Seq<PackageSpec>, aur: bool, upto: nat) -> nat
    decreases upto,
{
    if upto == 0 {
        0
    } else {
        count_of(packages, aur, (upto - 1) as nat) + (if is_aur(packages[upto - 1]) == aur {
            1nat
        } else {
            0nat
        })
    }
}

/// The command that runs a line of shell.
pub open spec fn shell(line: Seq<char>) -> CommandView {
    CommandView { program: "sh"@, args: seq!["-c"@, line] }
}

/// The command that has `program` install the packages named by `names`.
pub open spec fn installer(program: Seq<char>, names: Seq<char>) -> CommandView {
    CommandView { program, args: seq!["-S"@, "--noconfirm"@, "--needed"@, names] }
}

/// The commands that run the lines of a hook.
pub open spec fn hook_commands(lines: Option<Vec<String>>) -> Seq<CommandView> {
    match lines {
        Some(v) => v@.map_values(|l: String| shell(l@)),
        None => Seq::empty(),
    }
}

/// The commands that install the packages: one for those of the
/// distribution, then one for those of the user repository, each only where
/// there are such packages.
pub open spec fn package_commands(packages: Seq<PackageSpec>) -> Seq<CommandView> {
    (if count_of(packages, false, packages.len()) > 0 {
        seq![installer("pacman"@, joined_args(packages, false, packages.len()))]
    } else {
        Seq::empty()
    }) + (if count_of(packages, true, packages.len()) > 0 {
        seq![installer("paru"@, joined_args(packages, true, packages.len()))]
    } else {
        Seq::empty()
    })
}

/// The commands that install a list, in the order in which they run: the
/// commands before the installation, the installation, the commands after
/// it.
pub open spec fn install_commands(list: PackageList) -> Seq<CommandView> {
    hook_commands(list.pre_install) + package_commands(list.packages@) + hook_commands(
        list.post_install,
    )
}

/// The records of a list of commands.
pub open spec fn command_views(v: Seq<Command>) -> Seq<CommandView> {
    v.map_values(|c: Command| c@)
}

/// The step of an installation that a command belongs to.
#[derive(Debug, Clone, Copy, PartialEq, Eq, Structural)]
pub enum Context {
    /// Before the installation.
    PreInstall,
    /// After the installation.
    PostInstall,
}

impl PackageManager {
    /// The directory that the manager works in.
    pub closed spec fn base(&self) -> Seq<char> {
        self.base_path@
    }

    /// Whether the manager says what it does.
    pub closed spec fn is_verbose(&self) -> bool {
        self.verbose
    }

    /// A manager that works in `base_path` and keeps quiet.
    pub fn new(base_path: &str) -> (r: Self)
        ensures
            r.base() == base_path@,
            !r.is_verbose(),
    {
        PackageManager { base_path: String::from_str(base_path), verbose: false }
    }

    /// The same manager, saying what it does or not.
    pub fn verbose(self, verbose: bool) -> (r: Self)
        ensures
            r.base() == self.base(),
            r.is_verbose() == verbose,
    {
        let mut m = self;
        m.verbose = verbose;
        m
    }

    /// Whether the manager says what it does.
    pub fn says_more(&self) -> (r: bool)
        ensures
            r == self.is_verbose(),
    {
        self.verbose
    }

    /// The command that runs one line of a hook.
    pub fn run_commands(lines: &Vec<String>) -> (r: Vec<Command>)
        ensures
            command_views(r@) == lines@.map_values(|l: String| shell(l@)),
    {
        let mut out: Vec<Command> = Vec::new();
        let mut i: usize = 0;
        while i < lines.len()
            invariant
                i <= lines@.len(),
                command_views(out@) == lines@.take(i as int).map_values(|l: String| shell(l@)),
            decreases lines@.len() - i,
        {
            let mut args: Vec<String> = Vec::new();
            args.push(String::from_str("-c"));
            args.push(lines[i].clone());
            assert(texts(args@) =~= seq!["-c"@, lines@[i as int]@]);
            let ghost prev = out@;
            out.push(command("sh", args));
            proof {
                assert(command_views(out@) =~= command_views(prev).push(shell(lines@[i as int]@)));
                assert(lines@.take(i + 1).map_values(|l: String| shell(l@)) =~= lines@.take(
                    i as int,
                ).map_values(|l: String| shell(l@)).push(shell(lines@[i as int]@)));
            }
            i += 1;
        }
        assert(lines@.take(i as int) =~= lines@);
        out
    }

    /// The names of the packages of one kind, with a blank between them,
    /// and how many they are.
    fn names_of(packages: &Vec<PackageSpec>, aur: bool) -> (r: (String, usize))
        ensures
            r.0@ == joined_args(packages@, aur, packages@.len()),
            r.1 == count_of(packages@, aur, packages@.len()),
    {
        let mut names = String::new();
        let mut count: usize = 0;
        let mut i: usize = 0;
        let aur_name = "aur";
        while i < packages.len()
            invariant
                i <= packages@.len(),
                aur_name@ == "aur"@,
                names@ == joined_args(packages@, aur, i as nat),
                count == count_of(packages@, aur, i as nat),
                count <= i,
            decreases packages@.len() - i,
        {
            let p = &packages[i];
            let from_aur = match &p.source {
                Some(s) => *s.as_str() == *aur_name,
                None => true,
            };
            if from_aur == aur {
                if count > 0 {
                    names.append(" ");
                }
                names.append(p.name.as_str());
                match &p.version {
                    Some(v) => {
                        if aur {
                            names.append("@");
                        } else {
                            names.append(" ");
                        }
                        names.append(v.as_str());
                    },
                    None => {},
                }
                proof {
                    let arg = if aur {
                        aur_arg(*p)
                    } else {
                        official_arg(*p)
                    };
                    if count == 0 {
                        assert(joined_args(packages@, aur, i as nat) =~= Seq::<char>::empty()) by {
                            lemma_none_joined(packages@, aur, i as nat);
                        }
                        assert(names@ =~= arg);
                    } else {
                        assert(names@ =~= joined_args(packages@, aur, i as nat) + " "@ + arg);
                    }
                }
                count += 1;
            }
            i += 1;
        }
        (names, count)
    }

    /// The commands that install a list, in the order in which they run.
    /// Whoever runs them stops at the first one that fails.
    pub fn install_list(&self, pkg_list: &PackageList) -> (r: Vec<Command>)
        ensures
            command_views(r@) == install_commands(*pkg_list),
    {
        let mut out: Vec<Command> = match &pkg_list.pre_install {
            Some(lines) => Self::run_commands(lines),
            None => Vec::new(),
        };
        proof {
            if pkg_list.pre_install is None {
                assert(command_views(out@) =~= hook_commands(pkg_list.pre_install));
            }
        }
        let ghost pre = command_views(out@);
        let (official, official_count) = Self::names_of(&pkg_list.packages, false);
        let (aur, aur_count) = Self::names_of(&pkg_list.packages, true);
        if official_count > 0 {
            let ghost prev = out@;
            out.push(Self::install_command("pacman", official));
            assert(command_views(out@) =~= command_views(prev).push(
                installer("pacman"@, official@),
            ));
        }
        if aur_count > 0 {
            let ghost prev = out@;
            out.push(Self::install_command("paru", aur));
            assert(command_views(out@) =~= command_views(prev).push(installer("paru"@, aur@)));
        }
        assert(command_views(out@) =~= pre + package_commands(pkg_list.packages@));
        let ghost mid = command_views(out@);
        match &pkg_list.post_install {
            Some(lines) => {
                let mut post = Self::run_commands(lines);
                let ghost post_views = command_views(post@);
                let ghost before = out@;
                out.append(&mut post);
                assert(command_views(out@) =~= mid + post_views);
            },
            None => {
                assert(mid + hook_commands(pkg_list.post_install) =~= mid);
            },
        }
        out
    }

    /// The step that the command at place `index` of the commands of a list
    /// belongs to: the first commands are those before the installation, the
    /// last ones those after it; the ones between install packages.
    pub fn context_of(pkg_list: &PackageList, index: usize) -> (r: Option<Context>)
        ensures
            r == (if index < hook_commands(pkg_list.pre_install).len() {
                Some(Context::PreInstall)
            } else if index >= hook_commands(pkg_list.pre_install).len() + package_commands(
                pkg_list.packages@,
            ).len() && index < install_commands(*pkg_list).len() {
                Some(Context::PostInstall)
            } else {
                None
            }),
    {
        let before = match &pkg_list.pre_install {
            Some(lines) => lines.len(),
            None => 0,
        };
        let after = match &pkg_list.post_install {
            Some(lines) => lines.len(),
            None => 0,
        };
        let (_official, official_count) = Self::names_of(&pkg_list.packages, false);
        let (_aur, aur_count) = Self::names_of(&pkg_list.packages, true);
        let installers: usize = if official_count > 0 {
            if aur_count > 0 {
                2
            } else {
                1
            }
        } else {
            if aur_count > 0 {
                1
            } else {
                0
            }
        };
        if index < before {
            Some(Context::PreInstall)
        } else if index - before >= installers && index - before - installers < after {
            Some(Context::PostInstall)
        } else {
            None
        }
    }

    /// The command that has `program` install the packages named by `names`.
    fn install_command(program: &str, names: String) -> (r: Command)
        ensures
            r@ == installer(program@, names@),
    {
        let mut args: Vec<String> = Vec::new();
        args.push(String::from_str("-S"));
        args.push(String::from_str("--noconfirm"));
        args.push(String::from_str("--needed"));
        args.push(names);
        assert(texts(args@) =~= seq!["-S"@, "--noconfirm"@, "--needed"@, names@]);
        command(program, args)
    }

    /// The error for a line of a hook that failed: the step, the line and
    /// why it failed.
    pub fn hook_failed(context: Context, line: &str, reason: &str) -> (r: PackageError)
        ensures
            r matches PackageError::OperationFailed(m) && m@ == (match context {
                Context::PreInstall => "pre-install"@,
                Context::PostInstall => "post-install"@,
            }) + " command failed: "@ + line@ + " - "@ + reason@,
    {
        let mut m = String::from_str(
            match context {
                Context::PreInstall => "pre-install",
                Context::PostInstall => "post-install",
            },
        );
        m.append(" command failed: ");
        m.append(line);
        m.append(" - ");
        m.append(reason);
        PackageError::OperationFailed(m)
    }

    /// What the end of the command at place `index` means for the
    /// installation of a list with these commands.  After a command that
    /// ended well the next one is run, and after the last one the
    /// installation is over.  A command that failed ends the installation
    /// at once: no later command is run, and the error names the command,
    /// and for a line of a hook the step and the line.  A place behind the
    /// last command has nothing to run.
    pub fn after_command(
        pkg_list: &PackageList,
        commands: &Vec<Command>,
        index: usize,
        output: &CommandOutput,
    ) -> (r: InstallStep)
        ensures
            index >= commands@.len() ==> r is Finished,
            index < commands@.len() && output.success ==> (if index + 1 < commands@.len() {
                r matches InstallStep::Run(next) && next == index + 1
            } else {
                r is Finished
            }),
            index < commands@.len() && !output.success ==> (
            r matches InstallStep::Failed(PackageError::OperationFailed(m)) && m@
                == install_failure(*pkg_list, commands@[index as int]@, index as int, output.stderr@)),
    {
        if index >= commands.len() {
            return InstallStep::Finished;
        }
        if output.success {
            return if index + 1 < commands.len() {
                InstallStep::Run(index + 1)
            } else {
                InstallStep::Finished
            };
        }
        let command = &commands[index];
        let failed = Self::command_failed(command.program.as_str(), output.stderr.as_str());
        let context = Self::context_of(pkg_list, index);
        assert(texts(command.args@).len() == command.args@.len());
        match context {
            Some(context) => {
                if command.args.len() > 1 {
                    assert(texts(command.args@)[1] == command.args@[1]@);
                    let reason = failed.describe();
                    InstallStep::Failed(
                        Self::hook_failed(context, command.args[1].as_str(), reason.as_str()),
                    )
                } else {
                    InstallStep::Failed(failed)
                }
            },
            None => InstallStep::Failed(failed),
        }
    }

    /// The error for a command that ended with a failure: the program and
    /// what it wrote to its error output.
    pub fn command_failed(program: &str, stderr: &str) -> (r: PackageError)
        ensures
            r matches PackageError::OperationFailed(m) && m@ == command_failure(
                program@,
                stderr@,
            ),
    {
        let mut m = String::from_str("Command '");
        m.append(program);
        m.append("' failed: ");
        m.append(stderr);
        PackageError::OperationFailed(m)
    }
}

/// Without packages of a kind there are no names of that kind.
pub proof fn lemma_none_joined(packages: Seq<PackageSpec>, aur: bool, upto: nat)
    requires
        upto <= packages.len(),
        count_of(packages, aur, upto) == 0,
    ensures
        joined_args(packages, aur, upto) == Seq::<char>::empty(),
    decreases upto,
{
    if upto > 0 {
        lemma_none_joined(packages, aur, (upto - 1) as nat);
    }
}

} // verus!
