//! The command line registered to start the dashboard at logon.
use vstd::prelude::*;

use crate::text::{push_char, trim, trim_spec};

verus! {

/// `argument` wrapped in double quotes.
pub open spec fn quoted(argument: Seq<char>) -> Seq<char> {
    seq!['"'] + argument + seq!['"']
}

/// The logon command: the quoted executable path, followed by a quoted
/// `--workspace` argument when a workspace name with some non-blank text is given.
pub open spec fn startup_command_spec(executable: Seq<char>, workspace: Option<Seq<char>>) -> Seq<
    char,
> {
    match workspace {
        Some(w) if trim_spec(w).len() > 0 => quoted(executable) + " --workspace "@ + quoted(w),
        _ => quoted(executable),
    }
}

/// `argument` wrapped in double quotes.
pub fn quote_argument(argument: &str) -> (r: String)
    ensures
        r@ == quoted(argument@),
{
    let mut out = String::new();
    push_char(&mut out, '"');
    out.append(argument);
    push_char(&mut out, '"');
    assert(out@ =~= quoted(argument@));
    out
}

/// The logon command for the executable at `executable` that opens the named
/// workspace, if any.
pub fn startup_command_for_path(executable: &str, workspace_name: Option<&str>) -> (r: String)
    ensures
        r@ == startup_command_spec(
            executable@,
            match workspace_name {
                Some(w) => Some(w@),
                None => None,
            },
        ),
{
    let mut command = quote_argument(executable);
    if let Some(name) = workspace_name {
        if trim(name).unicode_len() > 0 {
            command.append(" --workspace ");
            let quoted_name = quote_argument(name);
            command.append(quoted_name.as_str());
        }
    }
    command
}

} // verus!
