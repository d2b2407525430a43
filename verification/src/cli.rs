//! Command-line parsing of the dashboard executable, driven one event at a
//! time: the caller feeds the arguments and the verdicts of the settings
//! store on workspace names, and performs the action each step asks for.
use crate::text::str_eq;
use vstd::prelude::*;

verus! {

/// What the settings store reports about a typed workspace name.
#[derive(Debug, Clone, PartialEq, Eq)]
pub enum WorkspaceNameValidation {
    /// A usable name, normalised by the store.
    Valid(String),
    /// Nothing but blanks.
    Empty,
    /// Not usable, with the reason.
    Invalid(String),
}

/// Why the command line was refused.
#[derive(Debug, Clone, PartialEq, Eq)]
pub enum CliError {
    /// `--workspace` was the last argument.
    MissingWorkspaceValue,
    /// An argument that the executable does not know.
    UnknownArgument(String),
    /// A workspace name that is blank.
    EmptyWorkspaceName,
    /// A workspace name that the store refused, with its reason.
    InvalidWorkspaceName(String),
}

/// The workspace named on the command line, or the error reported for it.
pub fn parse_workspace_name(validation: WorkspaceNameValidation) -> (r: Result<String, CliError>)
    ensures
        match validation {
            WorkspaceNameValidation::Valid(name) => r == Ok::<String, CliError>(name),
            WorkspaceNameValidation::Empty => r == Err::<String, CliError>(CliError::EmptyWorkspaceName),
            WorkspaceNameValidation::Invalid(reason) => r == Err::<String, CliError>(
                CliError::InvalidWorkspaceName(reason),
            ),
        },
{
    match validation {
        WorkspaceNameValidation::Valid(name) => Ok(name),
        WorkspaceNameValidation::Empty => Err(CliError::EmptyWorkspaceName),
        WorkspaceNameValidation::Invalid(reason) => Err(CliError::InvalidWorkspaceName(reason)),
    }
}

/// What one command-line argument asks for.
#[derive(Debug, Clone, PartialEq, Eq)]
pub enum ArgKind {
    Help,
    Version,
    /// `--workspace`, whose value is the next argument.
    WorkspaceFlag,
    /// `--workspace=<value>`, with the value.
    WorkspaceInline(String),
    Unknown,
}

/// `s` starts with `p`.
pub open spec fn has_prefix(s: Seq<char>, p: Seq<char>) -> bool {
    p.len() <= s.len() && s.subrange(0, p.len() as int) == p
}

/// `--help`, `-h` or `/?`.
pub open spec fn is_help_arg(a: Seq<char>) -> bool {
    a == "--help"@ || a == "-h"@ || a == "/?"@
}

/// `--version` or `-V`.
pub open spec fn is_version_arg(a: Seq<char>) -> bool {
    a == "--version"@ || a == "-V"@
}

/// `--workspace=` followed by a value.
pub open spec fn is_inline_workspace_arg(a: Seq<char>) -> bool {
    has_prefix(a, "--workspace="@)
}

/// Classifies a command-line argument.
pub fn classify_startup_arg(arg: &str) -> (r: ArgKind)
    ensures
        is_help_arg(arg@) ==> r == ArgKind::Help,
        !is_help_arg(arg@) && is_version_arg(arg@) ==> r == ArgKind::Version,
        !is_help_arg(arg@) && !is_version_arg(arg@) && arg@ == "--workspace"@ ==> r
            == ArgKind::WorkspaceFlag,
        !is_help_arg(arg@) && !is_version_arg(arg@) && arg@ != "--workspace"@
            && is_inline_workspace_arg(arg@) ==> (r matches ArgKind::WorkspaceInline(v) && v@
            == arg@.subrange(12, arg@.len() as int)),
        !is_help_arg(arg@) && !is_version_arg(arg@) && arg@ != "--workspace"@
            && !is_inline_workspace_arg(arg@) ==> r == ArgKind::Unknown,
{
    proof {
        reveal_strlit("--workspace=");
    }
    if str_eq(arg, "--help") || str_eq(arg, "-h") || str_eq(arg, "/?") {
        return ArgKind::Help;
    }
    if str_eq(arg, "--version") || str_eq(arg, "-V") {
        return ArgKind::Version;
    }
    if str_eq(arg, "--workspace") {
        return ArgKind::WorkspaceFlag;
    }
    let n = arg.unicode_len();
    if n >= 12 && str_eq(arg.substring_char(0, 12), "--workspace=") {
        return ArgKind::WorkspaceInline(arg.substring_char(12, n).to_owned());
    }
    ArgKind::Unknown
}

/// Where the parser stands between two events.
#[derive(Debug, Clone, Copy, PartialEq, Eq, Structural)]
pub enum CliPhase {
    /// The next event is an argument or the end of the arguments.
    ReadingArgs,
    /// `--workspace` was read; the next argument is its value.
    AwaitingValue,
    /// A workspace value was handed out for validation; the next event is
    /// the store's verdict on it.
    AwaitingValidation,
}

/// What the caller reports to the parser.
#[derive(Debug, Clone, PartialEq, Eq)]
pub enum CliEvent {
    /// The next argument (the program name is not reported).
    Arg(String),
    /// There are no more arguments.
    EndOfArgs,
    /// The settings store's verdict on the workspace value handed out.
    Validated(WorkspaceNameValidation),
}

/// What the parser asks the caller to do next.
#[derive(Debug, Clone, PartialEq, Eq)]
pub enum CliAction {
    /// Report the next argument, or the end of the arguments.
    NextArg,
    /// Have the settings store validate this workspace name and report the verdict.
    Validate(String),
    /// Start the dashboard with this workspace (`None`: the default one).
    Run(Option<String>),
    /// Print the usage text and exit.
    PrintUsage,
    /// Print the version and exit.
    PrintVersion,
    /// Refuse the command line.
    Fail(CliError),
}

/// The command-line parser: the workspace chosen so far and its phase.
#[derive(Debug)]
pub struct StartupArgsParser {
    pub workspace: Option<String>,
    pub phase: CliPhase,
}

impl StartupArgsParser {
    /// A parser before the first argument.
    pub fn new() -> (r: Self)
        ensures
            r.workspace is None,
            r.phase == CliPhase::ReadingArgs,
    {
        StartupArgsParser { workspace: None, phase: CliPhase::ReadingArgs }
    }

    /// The event fits the phase: a verdict exactly when one is awaited.
    pub open spec fn accepts(self, event: CliEvent) -> bool {
        (self.phase == CliPhase::AwaitingValidation) == (event is Validated)
    }

    /// Takes one event and says what to do next. Help and version flags end
    /// the parse at once; `--workspace <value>` and `--workspace=<value>` hand
    /// the value out for validation, and a valid name becomes the workspace
    /// (a later one replacing an earlier one); a missing value, an invalid
    /// name or an unknown argument refuses the command line; the end of the
    /// arguments starts the dashboard with the workspace chosen.
    pub fn step(&mut self, event: CliEvent) -> (r: CliAction)
        requires
            old(self).accepts(event),
        ensures
            match (old(self).phase, event) {
                (CliPhase::ReadingArgs, CliEvent::EndOfArgs) => r == CliAction::Run(
                    old(self).workspace,
                ),
                (CliPhase::ReadingArgs, CliEvent::Arg(a)) => {
                    if is_help_arg(a@) {
                        r == CliAction::PrintUsage
                    } else if is_version_arg(a@) {
                        r == CliAction::PrintVersion
                    } else if a@ == "--workspace"@ {
                        r == CliAction::NextArg && final(self).phase == CliPhase::AwaitingValue
                            && final(self).workspace == old(self).workspace
                    } else if is_inline_workspace_arg(a@) {
                        (r matches CliAction::Validate(v) && v@ == a@.subrange(
                            12,
                            a@.len() as int,
                        )) && final(self).phase == CliPhase::AwaitingValidation
                            && final(self).workspace == old(self).workspace
                    } else {
                        r == CliAction::Fail(CliError::UnknownArgument(a))
                    }
                },
                (CliPhase::AwaitingValue, CliEvent::Arg(a)) => r == CliAction::Validate(a)
                    && final(self).phase == CliPhase::AwaitingValidation && final(self).workspace
                    == old(self).workspace,
                (CliPhase::AwaitingValue, CliEvent::EndOfArgs) => r == CliAction::Fail(
                    CliError::MissingWorkspaceValue,
                ),
                (CliPhase::AwaitingValidation, CliEvent::Validated(v)) => match v {
                    WorkspaceNameValidation::Valid(name) => r == CliAction::NextArg
                        && final(self).phase == CliPhase::ReadingArgs && final(self).workspace
                        == Some(name),
                    WorkspaceNameValidation::Empty => r == CliAction::Fail(
                        CliError::EmptyWorkspaceName,
                    ),
                    WorkspaceNameValidation::Invalid(reason) => r == CliAction::Fail(
                        CliError::InvalidWorkspaceName(reason),
                    ),
                },
                _ => false,
            },
    {
        match event {
            CliEvent::EndOfArgs => {
                if self.phase == CliPhase::AwaitingValue {
                    return CliAction::Fail(CliError::MissingWorkspaceValue);
                }
                let mut workspace = None;
                std::mem::swap(&mut workspace, &mut self.workspace);
                CliAction::Run(workspace)
            },
            CliEvent::Arg(a) => {
                if self.phase == CliPhase::AwaitingValue {
                    self.phase = CliPhase::AwaitingValidation;
                    return CliAction::Validate(a);
                }
                match classify_startup_arg(a.as_str()) {
                    ArgKind::Help => CliAction::PrintUsage,
                    ArgKind::Version => CliAction::PrintVersion,
                    ArgKind::WorkspaceFlag => {
                        self.phase = CliPhase::AwaitingValue;
                        CliAction::NextArg
                    },
                    ArgKind::WorkspaceInline(value) => {
                        self.phase = CliPhase::AwaitingValidation;
                        CliAction::Validate(value)
                    },
                    ArgKind::Unknown => CliAction::Fail(CliError::UnknownArgument(a)),
                }
            },
            CliEvent::Validated(v) => match parse_workspace_name(v) {
                Ok(name) => {
                    self.workspace = Some(name);
                    self.phase = CliPhase::ReadingArgs;
                    CliAction::NextArg
                },
                Err(e) => CliAction::Fail(e),
            },
        }
    }
}

} // verus!
