//! The application-rule list of the settings window: filtering and tag chips.
use vstd::prelude::*;

use crate::format::{join, join_spec, string_views};
use crate::text::{contains, contains_spec, lower_seq, to_ascii_lowercase, trim, trim_spec};

verus! {

/// An application offered for selection: its identifier and display label.
#[derive(Debug, Clone, PartialEq, Eq)]
pub struct AppSelectionEntry {
    pub app_id: String,
    pub label: String,
}

/// One row of the application-rule list.
#[derive(Debug, Clone)]
pub struct AppRuleListEntry {
    pub option: AppSelectionEntry,
    pub is_running: bool,
    pub has_saved_rule: bool,
    pub is_hidden: bool,
    pub has_tags: bool,
    pub has_custom_refresh: bool,
    pub is_pinned: bool,
    /// Lower-cased label, identifier and tags, searched by the filter box.
    pub searchable_blob: String,
}

/// A row passes the list filter selected in the drop-down (1 running, 2 with
/// a saved rule, 3 hidden, 4 tagged, 5 with a custom refresh, 6 pinned, any
/// other position all rows) and contains the search text.
pub open spec fn entry_kept(e: AppRuleListEntry, filter_index: i32, query: Seq<char>) -> bool {
    let matches_filter = match filter_index {
        1 => e.is_running,
        2 => e.has_saved_rule,
        3 => e.is_hidden,
        4 => e.has_tags,
        5 => e.has_custom_refresh,
        6 => e.is_pinned,
        _ => true,
    };
    matches_filter && (query.len() == 0 || contains_spec(e.searchable_blob@, query))
}

/// The rows of `s` that pass the filter, in order.
pub open spec fn filtered_entries(s: Seq<AppRuleListEntry>, filter_index: i32, query: Seq<char>) -> Seq<
    AppRuleListEntry,
>
    decreases s.len(),
{
    if s.len() == 0 {
        s
    } else {
        let rest = filtered_entries(s.drop_last(), filter_index, query);
        if entry_kept(s.last(), filter_index, query) {
            rest.push(s.last())
        } else {
            rest
        }
    }
}

/// The chips of a tag list: each tag trimmed and ASCII lower-cased, blank tags
/// dropped.
pub open spec fn chips_spec(tags: Seq<Seq<char>>) -> Seq<Seq<char>>
    decreases tags.len(),
{
    if tags.len() == 0 {
        Seq::empty()
    } else {
        let rest = chips_spec(tags.drop_last());
        if trim_spec(tags.last()).len() > 0 {
            rest.push(lower_seq(trim_spec(tags.last())))
        } else {
            rest
        }
    }
}

/// Whether a row is of the kind the drop-down position selects: 1 running,
/// 2 with a saved rule, 3 hidden, 4 tagged, 5 with a custom refresh,
/// 6 pinned; every other position selects every row.
pub open spec fn of_selected_kind(e: AppRuleListEntry, filter_index: i32) -> bool {
    &&& filter_index == 1 ==> e.is_running
    &&& filter_index == 2 ==> e.has_saved_rule
    &&& filter_index == 3 ==> e.is_hidden
    &&& filter_index == 4 ==> e.has_tags
    &&& filter_index == 5 ==> e.has_custom_refresh
    &&& filter_index == 6 ==> e.is_pinned
}

/// Filtering the rule list keeps exactly the rows of the selected kind that
/// contain the search text (any row when the text is empty), in their given
/// order: every kept row is such a row, and every such row is kept.
pub proof fn lemma_filter_keeps_rows_of_selected_kind(
    s: Seq<AppRuleListEntry>,
    filter_index: i32,
    query: Seq<char>,
)
    ensures
        forall|i: int|
            0 <= i < filtered_entries(s, filter_index, query).len() ==> {
                let e = #[trigger] filtered_entries(s, filter_index, query)[i];
                &&& of_selected_kind(e, filter_index)
                &&& query.len() == 0 || contains_spec(e.searchable_blob@, query)
                &&& s.contains(e)
            },
        forall|i: int|
            0 <= i < s.len() && of_selected_kind(#[trigger] s[i], filter_index) && (query.len()
                == 0 || contains_spec(s[i].searchable_blob@, query)) ==> filtered_entries(
                s,
                filter_index,
                query,
            ).contains(s[i]),
        filtered_entries(s, filter_index, query).len() <= s.len(),
    decreases s.len(),
{
    if s.len() > 0 {
        let init = s.drop_last();
        lemma_filter_keeps_rows_of_selected_kind(init, filter_index, query);
        let rest = filtered_entries(init, filter_index, query);
        let r = filtered_entries(s, filter_index, query);
        assert forall|i: int| 0 <= i < r.len() implies {
            let e = #[trigger] r[i];
            &&& of_selected_kind(e, filter_index)
            &&& query.len() == 0 || contains_spec(e.searchable_blob@, query)
            &&& s.contains(e)
        } by {
            if i < rest.len() {
                assert(r[i] == rest[i]);
                let e = rest[i];
                let j = choose|j: int| 0 <= j < init.len() && init[j] == e;
                assert(s[j] == e);
            } else {
                assert(r[i] == s.last());
                assert(s[s.len() - 1] == s.last());
            }
        }
        assert forall|i: int|
            0 <= i < s.len() && of_selected_kind(#[trigger] s[i], filter_index) && (query.len()
                == 0 || contains_spec(s[i].searchable_blob@, query)) implies r.contains(s[i]) by {
            if i < s.len() - 1 {
                assert(init[i] == s[i]);
                let j = choose|j: int| 0 <= j < rest.len() && rest[j] == s[i];
                assert(r[j] == s[i]);
            } else {
                assert(entry_kept(s.last(), filter_index, query));
                assert(r[r.len() - 1] == s[i]);
            }
        }
    }
}

/// Whether a row passes the list filter and the search text.
fn entry_matches(entry: &AppRuleListEntry, filter_index: i32, search_query: &str) -> (r: bool)
    ensures
        r == entry_kept(*entry, filter_index, search_query@),
{
    let matches_filter = match filter_index {
        1 => entry.is_running,
        2 => entry.has_saved_rule,
        3 => entry.is_hidden,
        4 => entry.has_tags,
        5 => entry.has_custom_refresh,
        6 => entry.is_pinned,
        _ => true,
    };
    if !matches_filter {
        return false;
    }
    if search_query.unicode_len() == 0 {
        return true;
    }
    contains(entry.searchable_blob.as_str(), search_query)
}

/// The rows that pass the list filter selected in the drop-down and contain
/// the search text, in their given order.
pub fn filter_app_rule_entries(
    entries: Vec<AppRuleListEntry>,
    filter_index: i32,
    search_query: &str,
) -> (r: Vec<AppRuleListEntry>)
    ensures
        r@ == filtered_entries(entries@, filter_index, search_query@),
{
    let ghost all = entries@;
    let total = entries.len();
    assert(all.len() == total);
    let mut rest = entries;
    let mut out: Vec<AppRuleListEntry> = Vec::new();
    let mut i: usize = 0;
    assert(all.subrange(0, 0) =~= Seq::<AppRuleListEntry>::empty());
    while rest.len() > 0
        invariant
            i + rest@.len() == all.len(),
            all.len() <= usize::MAX,
            rest@ == all.subrange(i as int, all.len() as int),
            out@ == filtered_entries(all.subrange(0, i as int), filter_index, search_query@),
        decreases rest@.len(),
    {
        let entry = rest.remove(0);
        proof {
            let next = all.subrange(0, i + 1);
            assert(next.drop_last() =~= all.subrange(0, i as int));
            assert(next.last() == entry);
            assert(rest@ =~= all.subrange(i + 1, all.len() as int));
        }
        if entry_matches(&entry, filter_index, search_query) {
            out.push(entry);
        }
        i = i + 1;
    }
    assert(all.subrange(0, all.len() as int) =~= all);
    out
}

/// The tag chips of a tag list.
pub fn tag_chips(tags: &Vec<String>) -> (r: Vec<String>)
    ensures
        string_views(r@) == chips_spec(string_views(tags@)),
{
    let ghost views = string_views(tags@);
    let mut out: Vec<String> = Vec::new();
    let mut i: usize = 0;
    assert(string_views(out@) =~= chips_spec(views.subrange(0, 0)));
    while i < tags.len()
        invariant
            i <= tags@.len(),
            views == string_views(tags@),
            string_views(out@) == chips_spec(views.subrange(0, i as int)),
        decreases tags@.len() - i,
    {
        proof {
            let next = views.subrange(0, i + 1);
            assert(next.drop_last() =~= views.subrange(0, i as int));
            assert(next.last() == tags@[i as int]@);
        }
        let trimmed = trim(tags[i].as_str());
        if trimmed.unicode_len() > 0 {
            let chip = to_ascii_lowercase(trimmed);
            let ghost before = string_views(out@);
            out.push(chip);
            assert(string_views(out@) =~= before.push(chip@));
        }
        i = i + 1;
    }
    assert(views.subrange(0, tags@.len() as int) =~= views);
    out
}

/// The chips of the app-rule tag editor and the comma-separated text shown
/// beside them.
pub fn sync_app_rule_tags_editor(tags: &Vec<String>) -> (r: (Vec<String>, String))
    ensures
        string_views(r.0@) == chips_spec(string_views(tags@)),
        r.1@ == join_spec(chips_spec(string_views(tags@)), ", "@),
{
    let chips = tag_chips(tags);
    let text = join(&chips, ", ");
    (chips, text)
}

} // verus!
