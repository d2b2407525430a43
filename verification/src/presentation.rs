//! What the dashboard shows when no window is visible.
use crate::format::{decimal_spec, push_decimal};
use vstd::prelude::*;

verus! {

/// The texts and actions of the empty dashboard.
#[derive(Debug, Clone, PartialEq, Eq)]
pub struct EmptyStateContext {
    pub message: String,
    pub helper: String,
    pub status_summary: String,
    pub can_clear_filters: bool,
    pub can_show_hidden: bool,
}

/// "N hidden app(s)".
pub open spec fn hidden_apps_label(count: nat) -> Seq<char> {
    if count == 1 {
        "1 hidden app"@
    } else {
        decimal_spec(count) + " hidden apps"@
    }
}

/// The status line of the empty dashboard.
pub open spec fn empty_status_spec(has_filters: bool, hidden_count: nat, filter_summary: Seq<char>) -> Seq<char> {
    if has_filters && hidden_count == 0 {
        if filter_summary.len() > 0 {
            "Active filters: "@ + filter_summary
        } else {
            "Active filters are restricting visible windows."@
        }
    } else if !has_filters && hidden_count > 0 {
        if hidden_count == 1 {
            "1 app is currently hidden."@
        } else {
            decimal_spec(hidden_count) + " apps are currently hidden."@
        }
    } else if has_filters {
        if filter_summary.len() == 0 {
            "Active filters + "@ + hidden_apps_label(hidden_count)
        } else {
            filter_summary + seq![' ', '\u{b7}', ' '] + hidden_apps_label(hidden_count)
        }
    } else {
        Seq::empty()
    }
}

/// "N hidden app(s)".
fn hidden_apps_text(count: usize) -> (r: String)
    ensures
        r@ == hidden_apps_label(count as nat),
{
    if count == 1 {
        "1 hidden app".to_owned()
    } else {
        let mut s = String::new();
        push_decimal(&mut s, count as u64);
        s.append(" hidden apps");
        s
    }
}

/// The status line of the empty dashboard.
fn empty_status_text(has_filters: bool, hidden_count: usize, filter_summary: &str) -> (r: String)
    ensures
        r@ == empty_status_spec(has_filters, hidden_count as nat, filter_summary@),
{
    let summary_empty = filter_summary.unicode_len() == 0;
    if has_filters && hidden_count == 0 {
        if !summary_empty {
            let mut s = String::new();
            s.append("Active filters: ");
            s.append(filter_summary);
            s
        } else {
            "Active filters are restricting visible windows.".to_owned()
        }
    } else if !has_filters && hidden_count > 0 {
        if hidden_count == 1 {
            "1 app is currently hidden.".to_owned()
        } else {
            let mut s = String::new();
            push_decimal(&mut s, hidden_count as u64);
            s.append(" apps are currently hidden.");
            s
        }
    } else if has_filters {
        let label = hidden_apps_text(hidden_count);
        let mut s = String::new();
        if summary_empty {
            s.append("Active filters + ");
        } else {
            s.append(filter_summary);
            s.append(" \u{b7} ");
            proof {
                reveal_strlit(" \u{b7} ");
                assert(" \u{b7} "@ =~= seq![' ', '\u{b7}', ' ']);
            }
        }
        s.append(label.as_str());
        s
    } else {
        String::new()
    }
}

/// What the empty dashboard shows, from the active filters, the number of
/// hidden applications, the summary of the active filters and the texts of
/// a dashboard with nothing to show: filters come first (offering to clear
/// them), then hidden applications (offering to show them).
pub fn derive_empty_state_context(
    monitor_filter_active: bool,
    tag_filter_active: bool,
    app_filter_active: bool,
    hidden_count: usize,
    filter_summary: &str,
    empty_message: &str,
    empty_helper: &str,
) -> (r: EmptyStateContext)
    ensures
        ({
            let has_filters = monitor_filter_active || tag_filter_active || app_filter_active;
            &&& r.status_summary@ == empty_status_spec(has_filters, hidden_count as nat, filter_summary@)
            &&& r.can_clear_filters == has_filters
            &&& r.can_show_hidden == (hidden_count > 0)
            &&& has_filters ==> r.message@ == "No windows match your current filters"@ && r.helper@
                == "Try clearing filters or refreshing to repopulate visible windows."@
            &&& !has_filters && hidden_count > 0 ==> r.message@ == "All tracked windows are hidden"@
                && r.helper@ == "Restore hidden apps to bring them back into the layout."@
            &&& !has_filters && hidden_count == 0 ==> r.message@ == empty_message@ && r.helper@
                == empty_helper@
        }),
{
    let has_filters = monitor_filter_active || tag_filter_active || app_filter_active;
    let can_show_hidden = hidden_count > 0;
    let status_summary = empty_status_text(has_filters, hidden_count, filter_summary);
    if has_filters {
        EmptyStateContext {
            message: "No windows match your current filters".to_owned(),
            helper: "Try clearing filters or refreshing to repopulate visible windows.".to_owned(),
            status_summary,
            can_clear_filters: true,
            can_show_hidden,
        }
    } else if can_show_hidden {
        EmptyStateContext {
            message: "All tracked windows are hidden".to_owned(),
            helper: "Restore hidden apps to bring them back into the layout.".to_owned(),
            status_summary,
            can_clear_filters: false,
            can_show_hidden: true,
        }
    } else {
        EmptyStateContext {
            message: empty_message.to_owned(),
            helper: empty_helper.to_owned(),
            status_summary,
            can_clear_filters: false,
            can_show_hidden: false,
        }
    }
}

} // verus!
