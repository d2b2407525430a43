use panopticon::app_rules::AppSelectionEntry;
use panopticon::cli::{
    classify_startup_arg, parse_workspace_name, ArgKind, CliAction, CliError, CliEvent, CliPhase,
    StartupArgsParser, WorkspaceNameValidation,
};
use panopticon::palette::{command_entries_for_state, CommandCategory, CommandId};
use panopticon::placement::resolve_secondary_window_owner;
use panopticon::workspace::parse_workspace_target_input;

/// A stand-in for the settings store's name check: blank is empty, `?`
/// makes a name invalid, anything else is valid after trimming.
fn validate(raw: &str) -> WorkspaceNameValidation {
    let trimmed = raw.trim();
    if trimmed.is_empty() {
        WorkspaceNameValidation::Empty
    } else if trimmed.contains('?') {
        WorkspaceNameValidation::Invalid("workspace name is invalid".to_owned())
    } else {
        WorkspaceNameValidation::Valid(trimmed.to_owned())
    }
}

#[derive(Debug, PartialEq)]
enum Outcome {
    Run(Option<String>),
    Usage,
    Version,
    Error(CliError),
}

fn parse(args: &[&str]) -> Outcome {
    let mut parser = StartupArgsParser::new();
    let mut rest = args.iter().skip(1);
    let mut next = |rest: &mut dyn Iterator<Item = &&str>| match rest.next() {
        Some(arg) => CliEvent::Arg((*arg).to_owned()),
        None => CliEvent::EndOfArgs,
    };
    let mut event = next(&mut rest);
    loop {
        match parser.step(event) {
            CliAction::NextArg => event = next(&mut rest),
            CliAction::Validate(raw) => event = CliEvent::Validated(validate(&raw)),
            CliAction::Run(workspace) => return Outcome::Run(workspace),
            CliAction::PrintUsage => return Outcome::Usage,
            CliAction::PrintVersion => return Outcome::Version,
            CliAction::Fail(error) => return Outcome::Error(error),
        }
    }
}

#[test]
fn startup_args_accept_both_workspace_value_forms() {
    assert_eq!(parse(&["panopticon", "--workspace", "work"]), Outcome::Run(Some("work".to_owned())));
    assert_eq!(parse(&["panopticon", "--workspace=focus"]), Outcome::Run(Some("focus".to_owned())));
    assert_eq!(parse(&["panopticon"]), Outcome::Run(None));
}

#[test]
fn startup_args_help_and_version_end_the_parse() {
    assert_eq!(parse(&["panopticon", "--help"]), Outcome::Usage);
    assert_eq!(parse(&["panopticon", "/?", "--wat"]), Outcome::Usage);
    assert_eq!(parse(&["panopticon", "--version"]), Outcome::Version);
    assert_eq!(parse(&["panopticon", "-V"]), Outcome::Version);
}

#[test]
fn startup_args_reject_unknown_or_invalid_arguments() {
    assert_eq!(parse(&["panopticon", "--workspace"]), Outcome::Error(CliError::MissingWorkspaceValue));
    assert_eq!(
        parse(&["panopticon", "--workspace", "???"]),
        Outcome::Error(CliError::InvalidWorkspaceName("workspace name is invalid".to_owned()))
    );
    assert_eq!(parse(&["panopticon", "--wat"]), Outcome::Error(CliError::UnknownArgument("--wat".to_owned())));
    assert_eq!(parse(&["panopticon", "--workspace= "]), Outcome::Error(CliError::EmptyWorkspaceName));
}

#[test]
fn startup_args_take_the_flag_value_verbatim_and_the_last_workspace() {
    assert_eq!(
        parse(&["panopticon", "--workspace", "--help"]),
        Outcome::Run(Some("--help".to_owned()))
    );
    assert_eq!(
        parse(&["panopticon", "--workspace=a", "--workspace", "b"]),
        Outcome::Run(Some("b".to_owned()))
    );
    assert_eq!(
        parse(&["panopticon", "--workspace", "???", "--help"]),
        Outcome::Error(CliError::InvalidWorkspaceName("workspace name is invalid".to_owned()))
    );
}

#[test]
fn argument_kinds() {
    assert_eq!(classify_startup_arg("-h"), ArgKind::Help);
    assert_eq!(classify_startup_arg("--workspace"), ArgKind::WorkspaceFlag);
    assert_eq!(classify_startup_arg("--workspace="), ArgKind::WorkspaceInline(String::new()));
    assert_eq!(classify_startup_arg("--workspaces"), ArgKind::Unknown);
    let mut parser = StartupArgsParser::new();
    assert_eq!(parser.step(CliEvent::Arg("--workspace".to_owned())), CliAction::NextArg);
    assert_eq!(parser.phase, CliPhase::AwaitingValue);
}

#[test]
fn workspace_names_from_verdicts() {
    assert_eq!(parse_workspace_name(WorkspaceNameValidation::Valid("w".to_owned())), Ok("w".to_owned()));
    assert_eq!(parse_workspace_name(WorkspaceNameValidation::Empty), Err(CliError::EmptyWorkspaceName));
    assert_eq!(parse_workspace_target_input(WorkspaceNameValidation::Valid("DEFAULT".to_owned())), Ok(None));
    assert_eq!(
        parse_workspace_target_input(WorkspaceNameValidation::Valid("focus".to_owned())),
        Ok(Some("focus".to_owned()))
    );
    assert_eq!(parse_workspace_target_input(WorkspaceNameValidation::Empty), Ok(None));
    assert_eq!(
        parse_workspace_target_input(WorkspaceNameValidation::Invalid("bad".to_owned())),
        Err("bad".to_owned())
    );
}

#[test]
fn secondary_window_owner_prefers_the_foreground_window() {
    assert_eq!(resolve_secondary_window_owner(&vec![3, 5], 5, 1), 5);
    assert_eq!(resolve_secondary_window_owner(&vec![3, 5], 9, 1), 3);
    assert_eq!(resolve_secondary_window_owner(&Vec::new(), 9, 1), 1);
}

#[test]
fn session_commands_follow_the_catalogue() {
    let apps = vec![AppSelectionEntry { app_id: "app:code".to_owned(), label: "Code".to_owned() }];
    let hidden = vec![AppSelectionEntry { app_id: "app:mail".to_owned(), label: "Mail".to_owned() }];
    let entries = command_entries_for_state(
        &vec!["default".to_owned()],
        &vec!["DISPLAY1".to_owned()],
        &vec!["work".to_owned()],
        &apps,
        &hidden,
    );
    assert_eq!(entries.len(), 31 + 1 + 1 + 2 + 1);
    assert_eq!(entries[30].id, CommandId::Exit);
    assert_eq!(entries[31].id, CommandId::SetMonitorFilter("DISPLAY1".to_owned()));
    assert_eq!(entries[31].title, "Filters: Monitor DISPLAY1");
    assert_eq!(entries[32].title, "Filters: Tag work");
    assert_eq!(entries[33].id, CommandId::HideApp("app:code".to_owned(), "Code".to_owned()));
    assert_eq!(entries[33].keywords, "windows hide Code app:code");
    assert_eq!(entries[34].category, CommandCategory::Filters);
    assert_eq!(entries[34].title, "Filters: App Code");
    assert_eq!(entries[35].title, "Windows: Restore hidden Mail");
    assert_eq!(entries[35].keywords, "windows hidden restore Mail app:mail");
}
