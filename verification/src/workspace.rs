//! Status texts of saved workspaces in the settings window.
use vstd::prelude::*;

use crate::cli::WorkspaceNameValidation;
use crate::format::{decimal_spec, decimal_string, join, join_spec, string_views};
use crate::text::{eq_ignore_ascii_case, eq_ignore_case_spec, str_eq, trim, trim_spec};

verus! {

/// Separator between the parts of a workspace status summary.
pub open spec fn status_separator() -> Seq<char> {
    seq![' ', '\u{b7}', ' ']
}

/// The phrase for a positive number of saved app rules whose app is not running.
pub open spec fn missing_apps_phrase(missing_apps: nat) -> Seq<char> {
    if missing_apps == 1 {
        "1 app rule not currently running"@
    } else {
        decimal_spec(missing_apps) + " app rules not currently running"@
    }
}

/// The status parts of a workspace, in display order.
pub open spec fn status_parts(is_running: bool, is_modified: bool, missing_apps: nat) -> Seq<
    Seq<char>,
> {
    (if is_running {
        seq!["Loaded in this instance"@]
    } else {
        Seq::empty()
    }) + (if is_modified {
        seq!["Unsaved changes"@]
    } else {
        Seq::empty()
    }) + (if missing_apps > 0 {
        seq![missing_apps_phrase(missing_apps)]
    } else {
        Seq::empty()
    })
}

/// "Ready" when nothing is to be reported, otherwise the status parts joined
/// with a middle dot.
pub open spec fn status_summary_spec(is_running: bool, is_modified: bool, missing_apps: nat) -> Seq<
    char,
> {
    let parts = status_parts(is_running, is_modified, missing_apps);
    if parts.len() == 0 {
        "Ready"@
    } else {
        join_spec(parts, status_separator())
    }
}

/// One-line status of a workspace: whether it is loaded here, whether it has
/// unsaved changes, and how many of its app rules have no running app.
pub fn workspace_status_summary(is_running: bool, is_modified: bool, missing_apps: usize) -> (r:
    String)
    ensures
        r@ == status_summary_spec(is_running, is_modified, missing_apps as nat),
{
    let mut parts: Vec<String> = Vec::new();
    let ghost expected = status_parts(is_running, is_modified, missing_apps as nat);
    if is_running {
        parts.push("Loaded in this instance".to_owned());
    }
    if is_modified {
        parts.push("Unsaved changes".to_owned());
    }
    if missing_apps > 0 {
        let label = if missing_apps == 1 {
            "1 app rule not currently running".to_owned()
        } else {
            let mut text = decimal_string(missing_apps as u64);
            text.append(" app rules not currently running");
            text
        };
        parts.push(label);
    }
    assert(string_views(parts@) =~= expected);
    if parts.len() == 0 {
        "Ready".to_owned()
    } else {
        let separator = "\u{b7}";
        proof {
            reveal_strlit("\u{b7}");
        }
        let mut sep = String::new();
        crate::text::push_char(&mut sep, ' ');
        sep.append(separator);
        crate::text::push_char(&mut sep, ' ');
        assert(sep@ =~= status_separator());
        join(&parts, sep.as_str())
    }
}

/// Display text of a workspace timestamp: `unix-ms:` followed by the
/// milliseconds, or empty when the timestamp is unknown.
pub fn format_workspace_timestamp(value: Option<u64>) -> (r: String)
    ensures
        r@ == match value {
            Some(t) => "unix-ms:"@ + decimal_spec(t as nat),
            None => Seq::<char>::empty(),
        },
{
    match value {
        Some(timestamp) => {
            let mut text = "unix-ms:".to_owned();
            let digits = decimal_string(timestamp);
            text.append(digits.as_str());
            text
        },
        None => String::new(),
    }
}

/// The workspace a typed target names, from the settings store's verdict on
/// the typed text: `None` for the default workspace (typed as "default" in
/// any ASCII case, or left blank), the name otherwise, or the store's reason
/// for refusing it.
pub fn parse_workspace_target_input(validation: WorkspaceNameValidation) -> (r: Result<
    Option<String>,
    String,
>)
    ensures
        match validation {
            WorkspaceNameValidation::Valid(name) => if eq_ignore_case_spec(name@, "default"@) {
                r == Ok::<Option<String>, String>(None)
            } else {
                r == Ok::<Option<String>, String>(Some(name))
            },
            WorkspaceNameValidation::Empty => r == Ok::<Option<String>, String>(None),
            WorkspaceNameValidation::Invalid(reason) => r == Err::<Option<String>, String>(reason),
        },
{
    match validation {
        WorkspaceNameValidation::Valid(name) => {
            if eq_ignore_ascii_case(name.as_str(), "default") {
                Ok(None)
            } else {
                Ok(Some(name))
            }
        },
        WorkspaceNameValidation::Empty => Ok(None),
        WorkspaceNameValidation::Invalid(reason) => Err(reason),
    }
}

/// What the settings window shows about one saved workspace.
#[derive(Debug, Clone, PartialEq, Eq)]
pub struct WorkspaceUiSummary {
    pub workspace_name: Option<String>,
    pub option_label: String,
    pub display_name: String,
    pub description: String,
    pub created_at_label: String,
    pub updated_at_label: String,
    pub is_default: bool,
    pub is_running: bool,
    pub is_modified: bool,
    pub missing_apps: usize,
    pub status_summary: String,
}

/// How many of `rules` name an application that is not running.
pub open spec fn missing_count(rules: Seq<Seq<char>>, running: Seq<Seq<char>>) -> nat
    decreases rules.len(),
{
    if rules.len() == 0 {
        0
    } else {
        missing_count(rules.drop_last(), running) + if running.contains(rules.last()) {
            0nat
        } else {
            1nat
        }
    }
}

/// How many of the application rules name an application that is not running.
pub fn count_missing_apps(rule_app_ids: &Vec<String>, running_app_ids: &Vec<String>) -> (r: usize)
    ensures
        r == missing_count(string_views(rule_app_ids@), string_views(running_app_ids@)),
{
    let ghost rules = string_views(rule_app_ids@);
    let ghost running = string_views(running_app_ids@);
    let mut count: usize = 0;
    let mut i: usize = 0;
    while i < rule_app_ids.len()
        invariant
            i <= rule_app_ids.len(),
            rules == string_views(rule_app_ids@),
            running == string_views(running_app_ids@),
            count == missing_count(rules.take(i as int), running),
            count <= i,
        decreases rule_app_ids.len() - i,
    {
        let mut found = false;
        let mut j: usize = 0;
        while j < running_app_ids.len()
            invariant
                j <= running_app_ids.len(),
                i < rule_app_ids.len(),
                rules == string_views(rule_app_ids@),
                running == string_views(running_app_ids@),
                found == exists|k: int| 0 <= k < j && running[k] == rules[i as int],
            decreases running_app_ids.len() - j,
        {
            let matches = str_eq(running_app_ids[j].as_str(), rule_app_ids[i].as_str());
            proof {
                assert(running[j as int] == running_app_ids@[j as int]@);
                assert(rules[i as int] == rule_app_ids@[i as int]@);
                if !found && !matches {
                    assert forall|k: int| 0 <= k < j + 1 implies running[k] != rules[i as int] by {}
                }
            }
            if matches {
                found = true;
            }
            j = j + 1;
        }
        proof {
            assert(rules.take(i + 1).drop_last() =~= rules.take(i as int));
            assert(found == running.contains(rules[i as int]));
        }
        if !found {
            count = count + 1;
        }
        i = i + 1;
    }
    proof {
        assert(rules.take(i as int) =~= rules);
    }
    count
}

/// The summary of a saved workspace listed under `option_label`: its name
/// (`None` for the default workspace), the stored display name (the label
/// when blank) and description, both trimmed, its creation and update times,
/// whether it is the workspace of this instance (`current_workspace`) and,
/// if so, whether its stored settings differ from the running ones, and how
/// many of its application rules name an application that is not running.
pub fn workspace_summary(
    option_label: String,
    workspace_name: Option<String>,
    current_workspace: Option<&str>,
    display_name: &str,
    description: &str,
    created_unix_ms: Option<u64>,
    updated_unix_ms: Option<u64>,
    settings_differ: bool,
    rule_app_ids: &Vec<String>,
    running_app_ids: &Vec<String>,
) -> (r: WorkspaceUiSummary)
    ensures
        r.workspace_name == workspace_name,
        r.option_label == option_label,
        r.display_name@ == if trim_spec(display_name@).len() == 0 {
            option_label@
        } else {
            trim_spec(display_name@)
        },
        r.description@ == trim_spec(description@),
        r.created_at_label@ == match created_unix_ms {
            Some(t) => "unix-ms:"@ + decimal_spec(t as nat),
            None => Seq::<char>::empty(),
        },
        r.updated_at_label@ == match updated_unix_ms {
            Some(t) => "unix-ms:"@ + decimal_spec(t as nat),
            None => Seq::<char>::empty(),
        },
        r.is_default == workspace_name is None,
        r.is_running == match (workspace_name, current_workspace) {
            (Some(a), Some(b)) => a@ == b@,
            (None, None) => true,
            _ => false,
        },
        r.is_modified == (r.is_running && settings_differ),
        r.missing_apps == missing_count(string_views(rule_app_ids@), string_views(running_app_ids@)),
        r.status_summary@ == status_summary_spec(r.is_running, r.is_modified, r.missing_apps as nat),
{
    let trimmed_name = trim(display_name);
    let shown_name = if trimmed_name.unicode_len() == 0 {
        option_label.clone()
    } else {
        trimmed_name.to_owned()
    };
    let missing_apps = count_missing_apps(rule_app_ids, running_app_ids);
    let is_running = match (&workspace_name, current_workspace) {
        (Some(a), Some(b)) => str_eq(a.as_str(), b),
        (None, None) => true,
        _ => false,
    };
    let is_modified = is_running && settings_differ;
    let status_summary = workspace_status_summary(is_running, is_modified, missing_apps);
    WorkspaceUiSummary {
        is_default: workspace_name.is_none(),
        workspace_name,
        option_label,
        display_name: shown_name,
        description: trim(description).to_owned(),
        created_at_label: format_workspace_timestamp(created_unix_ms),
        updated_at_label: format_workspace_timestamp(updated_unix_ms),
        is_running,
        is_modified,
        missing_apps,
        status_summary,
    }
}

} // verus!
