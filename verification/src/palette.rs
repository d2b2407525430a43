//! Command palette: the command catalogue, the list of recently run commands
//! and the scoring and ordering of commands against a search query.
use crate::app_rules::AppSelectionEntry;
use crate::format::string_views;
use crate::tags::{lemma_lex_lt_irreflexive, lemma_lex_lt_total, lemma_lex_lt_transitive, lex_less, lex_lt};
use crate::settings_model::LayoutType;
use crate::text::{eq_ignore_ascii_case, eq_ignore_case_spec, trim, trim_spec, contains, contains_spec, lower_seq, occurs_at, starts_with, str_eq, to_ascii_lowercase};
use vstd::prelude::*;

verus! {

/// What a palette command does.
#[derive(Debug, Clone, PartialEq, Eq)]
pub enum CommandId {
    CycleLayout,
    SetLayout(LayoutType),
    ResetLayoutRatios,
    CycleTheme,
    RefreshNow,
    RestoreAllHiddenApps,
    OpenSettings,
    OpenSettingsBehaviorPage,
    OpenSettingsFiltersPage,
    OpenSettingsWorkspacesPage,
    OpenSettingsShortcutsPage,
    OpenSettingsAdvancedPage,
    OpenAbout,
    OpenMenu,
    HideApp(String, String),
    ClearAllFilters,
    SetMonitorFilter(String),
    SetTagFilter(String),
    SetAppFilter(String),
    ClearMonitorFilter,
    ClearTagFilter,
    ClearAppFilter,
    RestoreHiddenApp(String),
    LoadWorkspace(Option<String>),
    OpenWorkspaceInNewInstance(Option<String>),
    ToggleAnimations,
    ToggleToolbar,
    ToggleWindowInfo,
    ToggleAlwaysOnTop,
    Exit,
}

/// The group a command is listed under.
#[derive(Debug, Clone, Copy, PartialEq, Eq, Structural)]
pub enum CommandCategory {
    Layout,
    Theme,
    System,
    Settings,
    Filters,
    Windows,
    Workspace,
}

/// The display name of a category.
pub open spec fn category_label(c: CommandCategory) -> Seq<char> {
    match c {
        CommandCategory::Layout => "Layout"@,
        CommandCategory::Theme => "Theme"@,
        CommandCategory::System => "System"@,
        CommandCategory::Settings => "Settings"@,
        CommandCategory::Filters => "Filters"@,
        CommandCategory::Windows => "Windows"@,
        CommandCategory::Workspace => "Workspace"@,
    }
}

impl CommandCategory {
    /// The display name of the category.
    pub fn label(self) -> (r: &'static str)
        ensures
            r@ == category_label(self),
    {
        match self {
            CommandCategory::Layout => "Layout",
            CommandCategory::Theme => "Theme",
            CommandCategory::System => "System",
            CommandCategory::Settings => "Settings",
            CommandCategory::Filters => "Filters",
            CommandCategory::Windows => "Windows",
            CommandCategory::Workspace => "Workspace",
        }
    }
}

/// One command of the palette with the texts it is found by.
#[derive(Debug, Clone)]
pub struct CommandEntry {
    pub id: CommandId,
    pub category: CommandCategory,
    pub title: String,
    pub keywords: String,
}

// ---------------------------------------------------------------------------
// Recently run commands
// ---------------------------------------------------------------------------

/// How many recently run commands are remembered.
pub const RECENT_COMMAND_LIMIT: usize = 12;

/// Keys other than `k`.
pub open spec fn differs_from(k: Seq<char>) -> spec_fn(Seq<char>) -> bool {
    |x: Seq<char>| x != k
}

/// `s` cut to the recent-command limit.
pub open spec fn limited(s: Seq<Seq<char>>) -> Seq<Seq<char>> {
    if s.len() > RECENT_COMMAND_LIMIT {
        s.take(RECENT_COMMAND_LIMIT as int)
    } else {
        s
    }
}

/// The recent-command keys after running the command `k`: `k` first, then
/// the other keys in their previous order, at most the limit in all.
pub open spec fn remembered(s: Seq<Seq<char>>, k: Seq<char>) -> Seq<Seq<char>> {
    limited(seq![k] + s.filter(differs_from(k)))
}

/// The position of `k` in `s`: its first occurrence, if any.
pub open spec fn rank_of(s: Seq<Seq<char>>, k: Seq<char>, r: Option<usize>) -> bool {
    match r {
        Some(i) => i < s.len() && s[i as int] == k && forall|j: int| 0 <= j < i ==> s[j] != k,
        None => !s.contains(k),
    }
}

proof fn lemma_take_push_seq<A>(s: Seq<A>, i: int)
    requires
        0 <= i < s.len(),
    ensures
        s.take(i + 1) == s.take(i).push(s[i]),
{
    assert(s.take(i + 1) =~= s.take(i).push(s[i]));
}

/// Records that the command with key `key` ran: it moves to the front of the
/// recent list, and the list keeps at most the limit of keys.
pub fn remember_recent_command(recent: &mut Vec<String>, key: String)
    ensures
        string_views(final(recent)@) == remembered(string_views(old(recent)@), key@),
{
    let ghost s = string_views(recent@);
    let ghost k = key@;
    let ghost p = differs_from(k);
    let mut previous: Vec<String> = Vec::new();
    std::mem::swap(recent, &mut previous);
    let mut out: Vec<String> = Vec::new();
    let ghost kv = key@;
    out.push(key);
    proof {
        reveal(Seq::filter);
        assert(s.take(0) =~= Seq::<Seq<char>>::empty());
        assert(string_views(out@) =~= limited(seq![k] + s.take(0).filter(p)));
    }
    let n = previous.len();
    let mut i: usize = 0;
    while i < n
        invariant
            n == previous.len(),
            s == string_views(previous@),
            k == kv,
            p == differs_from(k),
            i <= n,
            out@.len() >= 1,
            string_views(out@) == limited(seq![k] + s.take(i as int).filter(p)),
        decreases n - i,
    {
        let ghost t = seq![k] + s.take(i as int).filter(p);
        proof {
            assert(string_views(out@).len() == out@.len());
            assert(t[0] == k);
            assert(string_views(out@)[0] == k);
            lemma_take_push_seq(s, i as int);
            s.take(i as int).lemma_filter_push(s[i as int], p);
            assert(s[i as int] == previous@[i as int]@);
        }
        let differs = !str_eq(previous[i].as_str(), out[0].as_str());
        if differs {
            if out.len() < RECENT_COMMAND_LIMIT {
                let item = previous[i].clone();
                proof {
                    assert(t.len() < RECENT_COMMAND_LIMIT);
                    assert(seq![k] + s.take(i as int).filter(p).push(s[i as int]) =~= t.push(
                        s[i as int],
                    ));
                    assert(string_views(out@.push(item)) =~= string_views(out@).push(item@));
                }
                out.push(item);
            } else {
                proof {
                    assert(seq![k] + s.take(i as int).filter(p).push(s[i as int]) =~= t.push(
                        s[i as int],
                    ));
                    assert(t.push(s[i as int]).take(RECENT_COMMAND_LIMIT as int) =~= limited(t));
                }
            }
        }
        i = i + 1;
    }
    proof {
        assert(s.take(n as int) =~= s);
    }
    *recent = out;
}

/// The position of the command with key `key` in the recent list, if it ran
/// recently; 0 is the most recent.
pub fn recent_rank_for_command(recent: &Vec<String>, key: &str) -> (r: Option<usize>)
    ensures
        rank_of(string_views(recent@), key@, r),
{
    let ghost s = string_views(recent@);
    let mut i: usize = 0;
    while i < recent.len()
        invariant
            s == string_views(recent@),
            i <= recent.len(),
            forall|j: int| 0 <= j < i ==> s[j] != key@,
        decreases recent.len() - i,
    {
        if str_eq(recent[i].as_str(), key) {
            return Some(i);
        }
        i = i + 1;
    }
    proof {
        if s.contains(key@) {
            let j = choose|j: int| 0 <= j < s.len() && s[j] == key@;
            assert(s[j] != key@);
        }
    }
    None
}

/// After a command runs it is the most recent one, and the list never holds
/// more than the limit of keys.
pub proof fn lemma_remembered_command_ranks_first(s: Seq<Seq<char>>, k: Seq<char>)
    ensures
        rank_of(remembered(s, k), k, Some(0)),
        remembered(s, k).len() <= RECENT_COMMAND_LIMIT,
        remembered(s, k).len() >= 1,
{
}

/// Remembering a command keeps the recent list free of repeated keys.
pub proof fn lemma_remembered_keys_stay_distinct(s: Seq<Seq<char>>, k: Seq<char>)
    requires
        s.no_duplicates(),
    ensures
        remembered(s, k).no_duplicates(),
{
    let f = s.filter(differs_from(k));
    lemma_filter_distinct_seq(s, differs_from(k));
    let t = seq![k] + f;
    assert forall|a: int, b: int| 0 <= a < t.len() && 0 <= b < t.len() && a != b implies t[a]
        != t[b] by {
        if a == 0 {
            s.lemma_filter_pred(differs_from(k), b - 1);
        } else if b == 0 {
            s.lemma_filter_pred(differs_from(k), a - 1);
        } else {
            assert(t[a] == f[a - 1] && t[b] == f[b - 1]);
        }
    }
}

proof fn lemma_filter_distinct_seq<A>(s: Seq<A>, p: spec_fn(A) -> bool)
    requires
        s.no_duplicates(),
    ensures
        s.filter(p).no_duplicates(),
    decreases s.len(),
{
    reveal(Seq::filter);
    if s.len() > 0 {
        let t = s.drop_last();
        let x = s.last();
        lemma_filter_distinct_seq(t, p);
        if p(x) {
            let f = t.filter(p);
            assert forall|i: int| 0 <= i < f.len() implies f[i] != x by {
                assert(f.contains(f[i]));
                t.lemma_filter_contains_rev(p, f[i]);
                let y = choose|y: int| 0 <= y < t.len() && t[y] == f[i];
                assert(s[y] == t[y]);
            }
            let g = f.push(x);
            assert forall|a: int, b: int| 0 <= a < g.len() && 0 <= b < g.len() && a != b implies g[a]
                != g[b] by {
                if a < f.len() && b < f.len() {
                    assert(g[a] == f[a] && g[b] == f[b]);
                }
            }
        }
    }
}

// ---------------------------------------------------------------------------
// Scoring commands against a query
// ---------------------------------------------------------------------------

/// Whether Unicode counts `c` as alphabetic or numeric, as
/// `char::is_alphanumeric` answers.
pub uninterp spec fn unicode_alphanumeric(c: char) -> bool;

/// Trusted: calls `char::is_alphanumeric`; its result is named
/// `unicode_alphanumeric` and nothing more is claimed of it.
#[verifier::external_body]
fn is_alphanumeric(c: char) -> (r: bool)
    ensures
        r == unicode_alphanumeric(c),
{
    c.is_alphanumeric()
}

/// Which characters of `t` are alphanumeric.
pub open spec fn alnum_mask(t: Seq<char>) -> Seq<bool> {
    t.map_values(|c: char| unicode_alphanumeric(c))
}

/// Some word of `t` starts with `q`, the words being the maximal runs of
/// characters marked alphanumeric in `alnum`.
pub open spec fn word_starts_with(t: Seq<char>, alnum: Seq<bool>, q: Seq<char>) -> bool {
    exists|i: int|
        #![trigger occurs_at(t, q, i)]
        occurs_at(t, q, i) && (i == 0 || !alnum[i - 1]) && (forall|j: int|
            i <= j < i + q.len() ==> alnum[j])
}

/// The bonus of a recently run command: 40 for the most recent, one less for
/// each older one, nothing from the 40th on.
pub open spec fn recent_bonus(rank: Option<usize>) -> int {
    match rank {
        Some(r) => if r < 40 {
            40 - r
        } else {
            0
        },
        None => 0,
    }
}

/// The score of a command whose lower-cased title, keywords and category
/// name are given, for the lower-cased query `q`: nothing when none of the
/// three contains the query, otherwise 50 for the title, 25 for the keywords,
/// 10 for the category, 30 when the title starts with the query, 20 when a
/// word of the title does, plus the recent-command bonus.
pub open spec fn score_spec(
    title: Seq<char>,
    keywords: Seq<char>,
    category: Seq<char>,
    alnum: Seq<bool>,
    q: Seq<char>,
    rank: Option<usize>,
) -> Option<int> {
    let in_title = contains_spec(title, q);
    let in_keywords = contains_spec(keywords, q);
    let in_category = contains_spec(category, q);
    if !in_title && !in_keywords && !in_category {
        None
    } else {
        Some(
            (if in_title {
                50int
            } else {
                0int
            }) + (if in_keywords {
                25int
            } else {
                0int
            }) + (if in_category {
                10int
            } else {
                0int
            }) + (if q.len() <= title.len() && title.subrange(0, q.len() as int) == q {
                30int
            } else {
                0int
            }) + (if word_starts_with(title, alnum, q) {
                20int
            } else {
                0int
            }) + recent_bonus(rank),
        )
    }
}

/// How a command is scored against a query: it is listed only when its
/// title, keywords or category name contains the query; a title match is
/// worth at least 50, a keyword match 25 and a category match 10; a title
/// that starts with the query at least 80; a recently run command gains 40
/// for the most recent and one less per older one, nothing from the 40th
/// on; and before that bonus no score exceeds 135.
pub proof fn lemma_score_weights(
    title: Seq<char>,
    keywords: Seq<char>,
    category: Seq<char>,
    alnum: Seq<bool>,
    q: Seq<char>,
    rank: usize,
)
    ensures
        score_spec(title, keywords, category, alnum, q, None) is None <==> (!contains_spec(title, q)
            && !contains_spec(keywords, q) && !contains_spec(category, q)),
        score_spec(title, keywords, category, alnum, q, Some(rank)) is Some
            <==> score_spec(title, keywords, category, alnum, q, None) is Some,
        score_spec(title, keywords, category, alnum, q, None) matches Some(base) ==> {
            &&& contains_spec(title, q) ==> base >= 50
            &&& contains_spec(keywords, q) ==> base >= 25
            &&& contains_spec(category, q) ==> base >= 10
            &&& q.len() <= title.len() && title.subrange(0, q.len() as int) == q ==> base >= 80
            &&& base <= 135
            &&& score_spec(title, keywords, category, alnum, q, Some(rank)) == Some(
                base + if rank < 40 {
                    40 - rank
                } else {
                    0
                },
            )
        },
{
    if q.len() <= title.len() && title.subrange(0, q.len() as int) == q {
        assert(occurs_at(title, q, 0));
    }
}

/// `score_spec` for an entry, with `alnum` marking the alphanumeric
/// characters of its lower-cased title.
pub open spec fn entry_score(e: CommandEntry, alnum: Seq<bool>, q: Seq<char>, rank: Option<usize>) -> Option<int> {
    score_spec(
        lower_seq(e.title@),
        lower_seq(e.keywords@),
        lower_seq(category_label(e.category)),
        alnum,
        q,
        rank,
    )
}

/// Which characters of `text` are alphanumeric.
pub fn alphanumeric_mask(text: &str) -> (r: Vec<bool>)
    ensures
        r@ == alnum_mask(text@),
{
    let n = text.unicode_len();
    let mut r: Vec<bool> = Vec::new();
    let mut i: usize = 0;
    while i < n
        invariant
            n == text@.len(),
            i <= n,
            r@ == alnum_mask(text@.take(i as int)),
        decreases n - i,
    {
        let c = text.get_char(i);
        proof {
            lemma_take_push_seq(text@, i as int);
            assert(alnum_mask(text@.take(i as int).push(c)) =~= alnum_mask(text@.take(i as int)).push(
                unicode_alphanumeric(c),
            ));
        }
        r.push(is_alphanumeric(c));
        i = i + 1;
    }
    assert(text@.take(n as int) =~= text@);
    r
}

/// Whether the word that starts at position `i` of `title` starts with `query`.
fn word_start_at(title: &str, alnum: &Vec<bool>, query: &str, i: usize) -> (r: bool)
    requires
        alnum@.len() == title@.len(),
        i + query@.len() <= title@.len(),
    ensures
        r == (occurs_at(title@, query@, i as int) && (i == 0 || !alnum@[i - 1]) && (forall|j: int|
            i <= j < i + query@.len() ==> alnum@[j])),
{
    if i > 0 && alnum[i - 1] {
        return false;
    }
    let m = query.unicode_len();
    let n = title.unicode_len();
    let mut j: usize = 0;
    while j < m
        invariant
            m == query@.len(),
            n == title@.len(),
            alnum@.len() == title@.len(),
            i + m <= n,
            j <= m,
            forall|p: int| i <= p < i + j ==> title@[p] == query@[p - i] && alnum@[p],
        decreases m - j,
    {
        if title.get_char(i + j) != query.get_char(j) {
            assert(title@.subrange(i as int, i + m)[j as int] != query@[j as int]);
            return false;
        }
        if !alnum[i + j] {
            return false;
        }
        j = j + 1;
    }
    assert(title@.subrange(i as int, i + m) =~= query@);
    true
}

/// Whether a word of `title` starts with `query`, the words being the
/// maximal runs of characters that `alnum` marks as alphanumeric.
pub fn title_has_word_starting_with(title: &str, alnum: &Vec<bool>, query: &str) -> (r: bool)
    requires
        alnum@.len() == title@.len(),
    ensures
        r == word_starts_with(title@, alnum@, query@),
{
    let n = title.unicode_len();
    let m = query.unicode_len();
    if m > n {
        assert forall|i: int| !occurs_at(title@, query@, i) by {}
        return false;
    }
    let last = n - m;
    let mut i: usize = 0;
    loop
        invariant
            n == title@.len(),
            m == query@.len(),
            alnum@.len() == title@.len(),
            m <= n,
            last == n - m,
            i <= last,
            forall|p: int|
                0 <= p < i ==> !(#[trigger] occurs_at(title@, query@, p) && (p == 0 || !alnum@[p
                    - 1]) && (forall|j: int| p <= j < p + query@.len() ==> alnum@[j])),
        decreases last - i,
    {
        if word_start_at(title, alnum, query, i) {
            return true;
        }
        if i == last {
            assert forall|p: int|
                !(#[trigger] occurs_at(title@, query@, p) && (p == 0 || !alnum@[p - 1]) && (forall|
                    j: int,
                | p <= j < p + query@.len() ==> alnum@[j])) by {
                if occurs_at(title@, query@, p) && p != i {
                    assert(p < i);
                }
            }
            return false;
        }
        i = i + 1;
    }
}

/// The score of an entry for the lower-cased, trimmed query `query`, where
/// `alnum` marks the alphanumeric characters of the lower-cased title and
/// `recent_rank` is the entry's position in the recent-command list.
pub fn score_with_mask(
    entry: &CommandEntry,
    alnum: &Vec<bool>,
    query: &str,
    recent_rank: Option<usize>,
) -> (r: Option<i32>)
    requires
        alnum@.len() == entry.title@.len(),
    ensures
        match entry_score(*entry, alnum@, query@, recent_rank) {
            Some(v) => r == Some(v as i32),
            None => r is None,
        },
{
    let title = to_ascii_lowercase(entry.title.as_str());
    let keywords = to_ascii_lowercase(entry.keywords.as_str());
    let category = to_ascii_lowercase(entry.category.label());
    let in_title = contains(title.as_str(), query);
    let in_keywords = contains(keywords.as_str(), query);
    let in_category = contains(category.as_str(), query);
    if !in_title && !in_keywords && !in_category {
        return None;
    }
    let mut score: i32 = 0;
    if in_title {
        score = score + 50;
    }
    if in_keywords {
        score = score + 25;
    }
    if in_category {
        score = score + 10;
    }
    if starts_with(title.as_str(), query) {
        score = score + 30;
    }
    if title_has_word_starting_with(title.as_str(), alnum, query) {
        score = score + 20;
    }
    match recent_rank {
        Some(rank) => {
            if rank < 40 {
                score = score + (40 - rank as i32);
            }
        },
        None => {},
    }
    Some(score)
}

/// The score of an entry for the lower-cased, trimmed query `query`.
pub fn command_score(entry: &CommandEntry, query: &str, recent_rank: Option<usize>) -> (r: Option<
    i32,
>)
    ensures
        match entry_score(*entry, alnum_mask(lower_seq(entry.title@)), query@, recent_rank) {
            Some(v) => r == Some(v as i32),
            None => r is None,
        },
{
    let title = to_ascii_lowercase(entry.title.as_str());
    let alnum = alphanumeric_mask(title.as_str());
    score_with_mask(entry, &alnum, query, recent_rank)
}

// ---------------------------------------------------------------------------
// Ordering matches
// ---------------------------------------------------------------------------

/// The titles of the entries.
pub open spec fn entry_titles(entries: Seq<CommandEntry>) -> Seq<Seq<char>> {
    entries.map_values(|e: CommandEntry| e.title@)
}

/// Entry `i` is listed before entry `j`: a higher score first, then the
/// title in text order, then the catalogue order.
pub open spec fn precedes(titles: Seq<Seq<char>>, scores: Seq<Option<i32>>, i: int, j: int) -> bool {
    let a = scores[i].unwrap();
    let b = scores[j].unwrap();
    a > b || (a == b && (lex_lt(titles[i], titles[j]) || (titles[i] == titles[j] && i < j)))
}

/// `order` lists exactly the entries that have a score, each once, from the
/// first to the last by `precedes`.
pub open spec fn is_ranking(titles: Seq<Seq<char>>, scores: Seq<Option<i32>>, order: Seq<usize>) -> bool {
    &&& forall|k: int| 0 <= k < order.len() ==> #[trigger] order[k] < scores.len()
    &&& forall|i: int| 0 <= i < scores.len() ==> (scores[i] is Some <==> order.contains(i as usize))
    &&& forall|a: int, b: int|
        0 <= a < b < order.len() ==> precedes(titles, scores, #[trigger] order[a] as int, #[trigger] order[b] as int)
}

proof fn lemma_precedes_irreflexive(titles: Seq<Seq<char>>, scores: Seq<Option<i32>>, i: int)
    ensures
        !precedes(titles, scores, i, i),
{
    lemma_lex_lt_irreflexive(titles[i]);
}

proof fn lemma_precedes_total(titles: Seq<Seq<char>>, scores: Seq<Option<i32>>, i: int, j: int)
    requires
        i != j,
    ensures
        precedes(titles, scores, i, j) || precedes(titles, scores, j, i),
{
    lemma_lex_lt_total(titles[i], titles[j]);
}

proof fn lemma_precedes_transitive(
    titles: Seq<Seq<char>>,
    scores: Seq<Option<i32>>,
    i: int,
    j: int,
    k: int,
)
    requires
        precedes(titles, scores, i, j),
        precedes(titles, scores, j, k),
    ensures
        precedes(titles, scores, i, k),
{
    if lex_lt(titles[i], titles[j]) && lex_lt(titles[j], titles[k]) {
        lemma_lex_lt_transitive(titles[i], titles[j], titles[k]);
    }
}

/// Whether entry `i` is listed before entry `j`; both have a score.
fn listed_before(entries: &Vec<CommandEntry>, scores: &Vec<Option<i32>>, i: usize, j: usize) -> (r: bool)
    requires
        i < entries.len(),
        j < entries.len(),
        scores.len() == entries.len(),
        scores@[i as int] is Some,
        scores@[j as int] is Some,
    ensures
        r == precedes(entry_titles(entries@), scores@, i as int, j as int),
{
    let a = match scores[i] {
        Some(v) => v,
        None => 0,
    };
    let b = match scores[j] {
        Some(v) => v,
        None => 0,
    };
    if a != b {
        return a > b;
    }
    let ti = entries[i].title.as_str();
    let tj = entries[j].title.as_str();
    if lex_less(ti, tj) {
        return true;
    }
    if str_eq(ti, tj) {
        return i < j;
    }
    false
}

/// The entries that have a score, from the best match to the worst: higher
/// scores first, equal scores by title, equal titles in catalogue order.
pub fn order_by_score(entries: &Vec<CommandEntry>, scores: &Vec<Option<i32>>) -> (r: Vec<usize>)
    requires
        scores.len() == entries.len(),
    ensures
        is_ranking(entry_titles(entries@), scores@, r@),
{
    let ghost titles = entry_titles(entries@);
    let n = entries.len();
    let mut r: Vec<usize> = Vec::new();
    let mut i: usize = 0;
    while i < n
        invariant
            n == entries.len(),
            n == scores.len(),
            titles == entry_titles(entries@),
            i <= n,
            forall|k: int| 0 <= k < r@.len() ==> #[trigger] r@[k] < i && scores@[r@[k] as int] is Some,
            forall|j: int| 0 <= j < i ==> (scores@[j] is Some <==> r@.contains(j as usize)),
            forall|a: int, b: int|
                0 <= a < b < r@.len() ==> precedes(titles, scores@, #[trigger] r@[a] as int, #[trigger] r@[b] as int),
        decreases n - i,
    {
        if scores[i].is_some() {
            let mut p: usize = 0;
            while p < r.len() && !listed_before(entries, scores, i, r[p])
                invariant
                    n == entries.len(),
                    n == scores.len(),
                    i < n,
                    scores@[i as int] is Some,
                    titles == entry_titles(entries@),
                    p <= r@.len(),
                    forall|k: int| 0 <= k < r@.len() ==> #[trigger] r@[k] < i && scores@[r@[k] as int] is Some,
                    forall|q: int| 0 <= q < p ==> precedes(titles, scores@, #[trigger] r@[q] as int, i as int),
                decreases r@.len() - p,
            {
                proof {
                    lemma_precedes_total(titles, scores@, i as int, r@[p as int] as int);
                }
                p = p + 1;
            }
            let ghost old_r = r@;
            proof {
                assert forall|q: int| p <= q < old_r.len() implies precedes(
                    titles,
                    scores@,
                    i as int,
                    #[trigger] old_r[q] as int,
                ) by {
                    if q > p {
                        lemma_precedes_transitive(
                            titles,
                            scores@,
                            i as int,
                            old_r[p as int] as int,
                            old_r[q] as int,
                        );
                    }
                }
            }
            r.insert(p, i);
            proof {
                assert(r@ =~= old_r.insert(p as int, i));
                assert forall|a: int, b: int| 0 <= a < b < r@.len() implies precedes(
                    titles,
                    scores@,
                    #[trigger] r@[a] as int,
                    #[trigger] r@[b] as int,
                ) by {
                    if a < p && b < p {
                        assert(r@[a] == old_r[a] && r@[b] == old_r[b]);
                    } else if a < p && b == p {
                        assert(r@[a] == old_r[a]);
                    } else if a < p {
                        assert(r@[a] == old_r[a] && r@[b] == old_r[b - 1]);
                    } else if a == p {
                        assert(r@[b] == old_r[b - 1]);
                    } else {
                        assert(r@[a] == old_r[a - 1] && r@[b] == old_r[b - 1]);
                    }
                }
                assert forall|j: int| 0 <= j <= i implies (scores@[j] is Some <==> r@.contains(
                    j as usize,
                )) by {
                    if j < i {
                        if old_r.contains(j as usize) {
                            let k = choose|k: int| 0 <= k < old_r.len() && old_r[k] == j as usize;
                            if k < p {
                                assert(r@[k] == j as usize);
                            } else {
                                assert(r@[k + 1] == j as usize);
                            }
                        }
                        if r@.contains(j as usize) {
                            let k = choose|k: int| 0 <= k < r@.len() && r@[k] == j as usize;
                            if k < p {
                                assert(old_r[k] == j as usize);
                            } else if k > p {
                                assert(old_r[k - 1] == j as usize);
                            }
                        }
                    } else {
                        assert(r@[p as int] == i);
                    }
                }
                assert forall|k: int| 0 <= k < r@.len() implies #[trigger] r@[k] < i + 1
                    && scores@[r@[k] as int] is Some by {
                    if k < p {
                        assert(r@[k] == old_r[k]);
                    } else if k > p {
                        assert(r@[k] == old_r[k - 1]);
                    }
                }
            }
        } else {
            proof {
                assert forall|k: int| 0 <= k < r@.len() implies #[trigger] r@[k] < i + 1
                    && scores@[r@[k] as int] is Some by {}
                assert forall|j: int| 0 <= j <= i implies (scores@[j] is Some <==> r@.contains(
                    j as usize,
                )) by {
                    if j == i && r@.contains(j as usize) {
                        let k = choose|k: int| 0 <= k < r@.len() && r@[k] == j as usize;
                        assert(r@[k] < i);
                    }
                }
            }
        }
        i = i + 1;
    }
    r
}

// ---------------------------------------------------------------------------
// Filtering the palette
// ---------------------------------------------------------------------------

/// The position of `k` in the recent list `s`, as a value.
pub open spec fn rank_spec(s: Seq<Seq<char>>, k: Seq<char>) -> Option<usize> {
    if s.contains(k) {
        Some(choose|i: usize| rank_of(s, k, Some(i)))
    } else {
        None
    }
}

proof fn lemma_rank_unique(s: Seq<Seq<char>>, k: Seq<char>, r: Option<usize>)
    requires
        rank_of(s, k, r),
    ensures
        r == rank_spec(s, k),
{
    match r {
        Some(i) => {
            assert(s.contains(k));
            let c = choose|c: usize| rank_of(s, k, Some(c));
            assert(rank_of(s, k, Some(c)));
            if c < i {
                assert(s[c as int] != k);
            }
            if i < c {
                assert(s[i as int] != k);
            }
        },
        None => {},
    }
}

/// The scores of all entries for the lower-cased, trimmed query `q`, each
/// entry ranked by its key in the recent list.
pub open spec fn palette_scores(
    entries: Seq<CommandEntry>,
    keys: Seq<Seq<char>>,
    recent: Seq<Seq<char>>,
    q: Seq<char>,
) -> Seq<Option<i32>> {
    Seq::new(
        entries.len(),
        |i: int|
            match entry_score(
                entries[i],
                alnum_mask(lower_seq(entries[i].title@)),
                q,
                rank_spec(recent, keys[i]),
            ) {
                Some(v) => Some(v as i32),
                None => None,
            },
    )
}

/// The text shown for a listed entry: its category in brackets, then its title.
pub open spec fn entry_label(e: CommandEntry) -> Seq<char> {
    "["@ + category_label(e.category) + "] "@ + e.title@
}

/// The labels shown for the listed entries `order`, or a single notice when
/// nothing matches.
pub open spec fn palette_labels(entries: Seq<CommandEntry>, order: Seq<usize>) -> Seq<Seq<char>> {
    if order.len() == 0 {
        seq!["No commands found"@]
    } else {
        order.map_values(|i: usize| entry_label(entries[i as int]))
    }
}

/// The text shown for one entry.
fn entry_label_text(entry: &CommandEntry) -> (r: String)
    ensures
        r@ == entry_label(*entry),
{
    let mut out = String::new();
    out.append("[");
    out.append(entry.category.label());
    out.append("] ");
    out.append(entry.title.as_str());
    out
}

/// The entries listed for a search query, best match first, and the labels
/// shown for them. The query is trimmed and lower-cased; an empty query lists
/// every entry in catalogue order; otherwise only the entries with a score
/// are listed, ordered by `precedes`. `entry_keys` holds the key of each
/// entry in the recent-command list.
pub fn rebuild_filtered_commands(
    entries: &Vec<CommandEntry>,
    entry_keys: &Vec<String>,
    recent: &Vec<String>,
    query: &str,
) -> (r: (Vec<usize>, Vec<String>))
    requires
        entry_keys.len() == entries.len(),
    ensures
        lower_seq(trim_spec(query@)).len() == 0 ==> r.0@ == Seq::new(
            entries@.len(),
            |i: int| i as usize,
        ),
        lower_seq(trim_spec(query@)).len() > 0 ==> is_ranking(
            entry_titles(entries@),
            palette_scores(
                entries@,
                string_views(entry_keys@),
                string_views(recent@),
                lower_seq(trim_spec(query@)),
            ),
            r.0@,
        ),
        string_views(r.1@) == palette_labels(entries@, r.0@),
{
    let normalized = to_ascii_lowercase(trim(query));
    let n = entries.len();
    let mut order: Vec<usize> = Vec::new();
    if normalized.unicode_len() == 0 {
        let mut i: usize = 0;
        while i < n
            invariant
                n == entries.len(),
                i <= n,
                order@ == Seq::new(i as nat, |k: int| k as usize),
            decreases n - i,
        {
            order.push(i);
            proof {
                assert(order@ =~= Seq::new((i + 1) as nat, |k: int| k as usize));
            }
            i = i + 1;
        }
    } else {
        let ghost sc = palette_scores(
            entries@,
            string_views(entry_keys@),
            string_views(recent@),
            normalized@,
        );
        let mut scores: Vec<Option<i32>> = Vec::new();
        let mut i: usize = 0;
        while i < n
            invariant
                n == entries.len(),
                n == entry_keys.len(),
                i <= n,
                sc == palette_scores(
                    entries@,
                    string_views(entry_keys@),
                    string_views(recent@),
                    normalized@,
                ),
                scores@ == sc.take(i as int),
            decreases n - i,
        {
            let rank = recent_rank_for_command(recent, entry_keys[i].as_str());
            proof {
                lemma_rank_unique(string_views(recent@), entry_keys@[i as int]@, rank);
                assert(string_views(entry_keys@)[i as int] == entry_keys@[i as int]@);
            }
            let score = command_score(&entries[i], normalized.as_str(), rank);
            scores.push(score);
            proof {
                assert(scores@ =~= sc.take(i + 1));
            }
            i = i + 1;
        }
        proof {
            assert(scores@ =~= sc);
        }
        order = order_by_score(entries, &scores);
    }
    let mut labels: Vec<String> = Vec::new();
    if order.len() == 0 {
        labels.push("No commands found".to_owned());
        proof {
            assert(string_views(labels@) =~= seq!["No commands found"@]);
        }
    } else {
        let mut k: usize = 0;
        while k < order.len()
            invariant
                k <= order@.len(),
                order@.len() > 0,
                n == entries.len(),
                forall|j: int| 0 <= j < order@.len() ==> #[trigger] order@[j] < n,
                string_views(labels@) == order@.take(k as int).map_values(
                    |i: usize| entry_label(entries@[i as int]),
                ),
            decreases order@.len() - k,
        {
            let text = entry_label_text(&entries[order[k]]);
            proof {
                lemma_take_push_seq(order@, k as int);
                assert(string_views(labels@.push(text)) =~= string_views(labels@).push(text@));
                assert(order@.take(k + 1).map_values(|i: usize| entry_label(entries@[i as int]))
                    =~= order@.take(k as int).map_values(|i: usize| entry_label(entries@[i as int])).push(
                    entry_label(entries@[order@[k as int] as int]),
                ));
            }
            labels.push(text);
            k = k + 1;
        }
        proof {
            assert(order@.take(order@.len() as int) =~= order@);
        }
    }
    (order, labels)
}

// ---------------------------------------------------------------------------
// The command catalogue
// ---------------------------------------------------------------------------

/// What a catalogue entry holds, as seen by specifications.
pub type EntryView = (CommandId, CommandCategory, Seq<char>, Seq<char>);

/// The command, category, title and keywords of an entry.
pub open spec fn entry_view(e: CommandEntry) -> EntryView {
    (e.id, e.category, e.title@, e.keywords@)
}

/// The fixed commands that open the catalogue, in order.
pub open spec fn base_commands() -> Seq<EntryView> {
    seq![
        (CommandId::CycleLayout, CommandCategory::Layout, "Layout: Cycle"@, "layout cycle next"@),
        (CommandId::SetLayout(LayoutType::Grid), CommandCategory::Layout, "Layout: Grid"@, "layout grid"@),
        (CommandId::SetLayout(LayoutType::Mosaic), CommandCategory::Layout, "Layout: Mosaic"@, "layout mosaic"@),
        (CommandId::SetLayout(LayoutType::Bento), CommandCategory::Layout, "Layout: Bento"@, "layout bento"@),
        (CommandId::SetLayout(LayoutType::Fibonacci), CommandCategory::Layout, "Layout: Fibonacci"@, "layout fibonacci"@),
        (CommandId::SetLayout(LayoutType::Columns), CommandCategory::Layout, "Layout: Columns"@, "layout columns"@),
        (CommandId::SetLayout(LayoutType::Row), CommandCategory::Layout, "Layout: Row"@, "layout row"@),
        (CommandId::SetLayout(LayoutType::Column), CommandCategory::Layout, "Layout: Column"@, "layout column"@),
        (CommandId::ResetLayoutRatios, CommandCategory::Layout, "Layout: Reset ratios"@, "layout reset ratios separators"@),
        (CommandId::CycleTheme, CommandCategory::Theme, "Theme: Cycle"@, "theme cycle next"@),
        (CommandId::RefreshNow, CommandCategory::System, "Refresh: Run now"@, "refresh update windows now"@),
        (CommandId::RestoreAllHiddenApps, CommandCategory::Windows, "Windows: Restore all hidden apps"@, "windows hidden apps restore all"@),
        (CommandId::OpenSettings, CommandCategory::Settings, "Open Settings"@, "settings preferences config"@),
        (CommandId::OpenSettingsBehaviorPage, CommandCategory::Settings, "Settings: Behavior & Display"@, "settings behavior display"@),
        (CommandId::OpenSettingsFiltersPage, CommandCategory::Settings, "Settings: Filters"@, "settings filters monitor tag app"@),
        (CommandId::OpenSettingsWorkspacesPage, CommandCategory::Settings, "Settings: Workspaces"@, "settings workspaces profiles"@),
        (CommandId::OpenSettingsShortcutsPage, CommandCategory::Settings, "Settings: Shortcuts"@, "settings keyboard shortcuts"@),
        (CommandId::OpenSettingsAdvancedPage, CommandCategory::Settings, "Settings: Advanced"@, "settings advanced refresh dock"@),
        (CommandId::OpenAbout, CommandCategory::Settings, "Open About"@, "about version update"@),
        (CommandId::OpenMenu, CommandCategory::System, "Open App Menu"@, "menu context tray"@),
        (CommandId::ClearAllFilters, CommandCategory::Filters, "Filters: Clear all"@, "filters clear all monitor tag app"@),
        (CommandId::ClearMonitorFilter, CommandCategory::Filters, "Filters: Clear monitor"@, "filters monitor clear"@),
        (CommandId::ClearTagFilter, CommandCategory::Filters, "Filters: Clear tag"@, "filters tag clear"@),
        (CommandId::ClearAppFilter, CommandCategory::Filters, "Filters: Clear app"@, "filters app clear"@),
        (CommandId::ToggleAnimations, CommandCategory::Settings, "Toggle Animations"@, "animations toggle transitions"@),
        (CommandId::ToggleToolbar, CommandCategory::Settings, "Toggle Status Bar"@, "toolbar status bar toggle"@),
        (CommandId::ToggleWindowInfo, CommandCategory::Settings, "Toggle Window Info"@, "window info labels overlay toggle"@),
        (CommandId::ToggleAlwaysOnTop, CommandCategory::Settings, "Toggle Always On Top"@, "topmost always on top pin"@),
        (CommandId::LoadWorkspace(None), CommandCategory::Workspace, "Workspace: Load default"@, "workspace load default"@),
        (CommandId::OpenWorkspaceInNewInstance(None), CommandCategory::Workspace, "Workspace: Open default in new instance"@, "workspace open default new instance"@),
    ]
}

/// An entry with the given command, category, title and keywords.
fn command_entry(id: CommandId, category: CommandCategory, title: &str, keywords: &str) -> (r:
    CommandEntry)
    ensures
        entry_view(r) == (id, category, title@, keywords@),
{
    CommandEntry { id, category, title: title.to_owned(), keywords: keywords.to_owned() }
}

/// The fixed commands that open the catalogue.
fn base_command_entries() -> (r: Vec<CommandEntry>)
    ensures
        r@.map_values(|e: CommandEntry| entry_view(e)) == base_commands(),
{
    let mut r: Vec<CommandEntry> = Vec::new();
    r.push(command_entry(CommandId::CycleLayout, CommandCategory::Layout, "Layout: Cycle", "layout cycle next"));
    r.push(command_entry(CommandId::SetLayout(LayoutType::Grid), CommandCategory::Layout, "Layout: Grid", "layout grid"));
    r.push(command_entry(CommandId::SetLayout(LayoutType::Mosaic), CommandCategory::Layout, "Layout: Mosaic", "layout mosaic"));
    r.push(command_entry(CommandId::SetLayout(LayoutType::Bento), CommandCategory::Layout, "Layout: Bento", "layout bento"));
    r.push(command_entry(CommandId::SetLayout(LayoutType::Fibonacci), CommandCategory::Layout, "Layout: Fibonacci", "layout fibonacci"));
    r.push(command_entry(CommandId::SetLayout(LayoutType::Columns), CommandCategory::Layout, "Layout: Columns", "layout columns"));
    r.push(command_entry(CommandId::SetLayout(LayoutType::Row), CommandCategory::Layout, "Layout: Row", "layout row"));
    r.push(command_entry(CommandId::SetLayout(LayoutType::Column), CommandCategory::Layout, "Layout: Column", "layout column"));
    r.push(command_entry(CommandId::ResetLayoutRatios, CommandCategory::Layout, "Layout: Reset ratios", "layout reset ratios separators"));
    r.push(command_entry(CommandId::CycleTheme, CommandCategory::Theme, "Theme: Cycle", "theme cycle next"));
    r.push(command_entry(CommandId::RefreshNow, CommandCategory::System, "Refresh: Run now", "refresh update windows now"));
    r.push(command_entry(CommandId::RestoreAllHiddenApps, CommandCategory::Windows, "Windows: Restore all hidden apps", "windows hidden apps restore all"));
    r.push(command_entry(CommandId::OpenSettings, CommandCategory::Settings, "Open Settings", "settings preferences config"));
    r.push(command_entry(CommandId::OpenSettingsBehaviorPage, CommandCategory::Settings, "Settings: Behavior & Display", "settings behavior display"));
    r.push(command_entry(CommandId::OpenSettingsFiltersPage, CommandCategory::Settings, "Settings: Filters", "settings filters monitor tag app"));
    r.push(command_entry(CommandId::OpenSettingsWorkspacesPage, CommandCategory::Settings, "Settings: Workspaces", "settings workspaces profiles"));
    r.push(command_entry(CommandId::OpenSettingsShortcutsPage, CommandCategory::Settings, "Settings: Shortcuts", "settings keyboard shortcuts"));
    r.push(command_entry(CommandId::OpenSettingsAdvancedPage, CommandCategory::Settings, "Settings: Advanced", "settings advanced refresh dock"));
    r.push(command_entry(CommandId::OpenAbout, CommandCategory::Settings, "Open About", "about version update"));
    r.push(command_entry(CommandId::OpenMenu, CommandCategory::System, "Open App Menu", "menu context tray"));
    r.push(command_entry(CommandId::ClearAllFilters, CommandCategory::Filters, "Filters: Clear all", "filters clear all monitor tag app"));
    r.push(command_entry(CommandId::ClearMonitorFilter, CommandCategory::Filters, "Filters: Clear monitor", "filters monitor clear"));
    r.push(command_entry(CommandId::ClearTagFilter, CommandCategory::Filters, "Filters: Clear tag", "filters tag clear"));
    r.push(command_entry(CommandId::ClearAppFilter, CommandCategory::Filters, "Filters: Clear app", "filters app clear"));
    r.push(command_entry(CommandId::ToggleAnimations, CommandCategory::Settings, "Toggle Animations", "animations toggle transitions"));
    r.push(command_entry(CommandId::ToggleToolbar, CommandCategory::Settings, "Toggle Status Bar", "toolbar status bar toggle"));
    r.push(command_entry(CommandId::ToggleWindowInfo, CommandCategory::Settings, "Toggle Window Info", "window info labels overlay toggle"));
    r.push(command_entry(CommandId::ToggleAlwaysOnTop, CommandCategory::Settings, "Toggle Always On Top", "topmost always on top pin"));
    r.push(command_entry(CommandId::LoadWorkspace(None), CommandCategory::Workspace, "Workspace: Load default", "workspace load default"));
    r.push(command_entry(CommandId::OpenWorkspaceInNewInstance(None), CommandCategory::Workspace, "Workspace: Open default in new instance", "workspace open default new instance"));
    assert(r@.map_values(|e: CommandEntry| entry_view(e)) =~= base_commands());
    r
}

/// Saved workspaces other than the default one, compared without ASCII case.
pub open spec fn is_named_workspace() -> spec_fn(Seq<char>) -> bool {
    |w: Seq<char>| !eq_ignore_case_spec(w, "default"@)
}

/// `e` loads the workspace `w`.
pub open spec fn loads_workspace(e: CommandEntry, w: Seq<char>) -> bool {
    &&& e.id matches CommandId::LoadWorkspace(Some(name)) && name@ == w
    &&& e.category == CommandCategory::Workspace
    &&& e.title@ == "Workspace: Load "@ + w
    &&& e.keywords@ == "workspace load switch "@ + w
}

/// `e` opens the workspace `w` in a new instance.
pub open spec fn opens_workspace(e: CommandEntry, w: Seq<char>) -> bool {
    &&& e.id matches CommandId::OpenWorkspaceInNewInstance(Some(name)) && name@ == w
    &&& e.category == CommandCategory::Workspace
    &&& e.title@ == "Workspace: Open "@ + w + " in new instance"@
    &&& e.keywords@ == "workspace open launch new instance "@ + w
}

/// `es` holds, for each workspace of `ws` in order, its load entry and then
/// its open-in-new-instance entry.
pub open spec fn workspace_entries(es: Seq<CommandEntry>, ws: Seq<Seq<char>>) -> bool {
    &&& es.len() == 2 * ws.len()
    &&& forall|j: int|
        0 <= j < ws.len() ==> loads_workspace(#[trigger] es[2 * j], ws[j]) && opens_workspace(
            es[2 * j + 1],
            ws[j],
        )
}

/// The exit command that closes the catalogue.
pub open spec fn exit_command() -> EntryView {
    (CommandId::Exit, CommandCategory::System, "Exit Panopticon"@, "quit exit close app"@)
}

/// `es` is the command catalogue for the saved workspaces `ws`: the fixed
/// commands, two entries per workspace other than the default one, and the
/// exit command.
pub open spec fn is_catalogue(es: Seq<CommandEntry>, ws: Seq<Seq<char>>) -> bool {
    let named = ws.filter(is_named_workspace());
    let b = base_commands().len() as int;
    &&& es.len() == b + 2 * named.len() + 1
    &&& es.take(b).map_values(|e: CommandEntry| entry_view(e)) == base_commands()
    &&& workspace_entries(es.subrange(b, b + 2 * named.len()), named)
    &&& entry_view(es[es.len() - 1]) == exit_command()
}

/// Two entries for one saved workspace.
fn push_workspace_entries(r: &mut Vec<CommandEntry>, workspace: &String)
    ensures
        final(r)@.len() == old(r)@.len() + 2,
        final(r)@.take(old(r)@.len() as int) == old(r)@,
        loads_workspace(final(r)@[old(r)@.len() as int], workspace@),
        opens_workspace(final(r)@[old(r)@.len() as int + 1], workspace@),
{
    let mut load_title = String::new();
    load_title.append("Workspace: Load ");
    load_title.append(workspace.as_str());
    let mut load_keywords = String::new();
    load_keywords.append("workspace load switch ");
    load_keywords.append(workspace.as_str());
    let mut open_title = String::new();
    open_title.append("Workspace: Open ");
    open_title.append(workspace.as_str());
    open_title.append(" in new instance");
    let mut open_keywords = String::new();
    open_keywords.append("workspace open launch new instance ");
    open_keywords.append(workspace.as_str());
    let ghost before = r@;
    r.push(
        CommandEntry {
            id: CommandId::LoadWorkspace(Some(workspace.clone())),
            category: CommandCategory::Workspace,
            title: load_title,
            keywords: load_keywords,
        },
    );
    r.push(
        CommandEntry {
            id: CommandId::OpenWorkspaceInNewInstance(Some(workspace.clone())),
            category: CommandCategory::Workspace,
            title: open_title,
            keywords: open_keywords,
        },
    );
    assert(r@.take(before.len() as int) =~= before);
}

/// The command catalogue for the saved workspaces `workspaces`: the fixed
/// commands, then a load and an open-in-new-instance command for every
/// workspace except the default one, then the exit command.
pub fn command_entries(workspaces: &Vec<String>) -> (r: Vec<CommandEntry>)
    ensures
        is_catalogue(r@, string_views(workspaces@)),
{
    let mut r = base_command_entries();
    let ghost ws = string_views(workspaces@);
    let ghost p = is_named_workspace();
    let ghost b: int = 30;
    proof {
        assert(r@.len() == b) by {
            assert(r@.map_values(|e: CommandEntry| entry_view(e)).len() == base_commands().len());
        }
        reveal(Seq::filter);
        assert(ws.take(0) =~= Seq::<Seq<char>>::empty());
        assert(r@.subrange(b, b) =~= Seq::<CommandEntry>::empty());
        assert(r@.take(b) =~= r@);
    }
    let mut i: usize = 0;
    while i < workspaces.len()
        invariant
            i <= workspaces.len(),
            ws == string_views(workspaces@),
            p == is_named_workspace(),
            b == 30,
            base_commands().len() == b,
            r@.len() == b + 2 * ws.take(i as int).filter(p).len(),
            r@.take(b).map_values(|e: CommandEntry| entry_view(e)) == base_commands(),
            workspace_entries(r@.subrange(b, r@.len() as int), ws.take(i as int).filter(p)),
        decreases workspaces.len() - i,
    {
        proof {
            lemma_take_push_seq(ws, i as int);
            ws.take(i as int).lemma_filter_push(ws[i as int], p);
            assert(ws[i as int] == workspaces@[i as int]@);
        }
        if !eq_ignore_ascii_case(workspaces[i].as_str(), "default") {
            let ghost before = r@;
            let ghost f = ws.take(i as int).filter(p);
            push_workspace_entries(&mut r, &workspaces[i]);
            proof {
                assert(r@.take(b) =~= before.take(b)) by {
                    assert(r@.take(before.len() as int) == before);
                }
                let tail = r@.subrange(b, r@.len() as int);
                let old_tail = before.subrange(b, before.len() as int);
                let nf = f.push(ws[i as int]);
                assert forall|j: int| 0 <= j < nf.len() implies loads_workspace(
                    #[trigger] tail[2 * j],
                    nf[j],
                ) && opens_workspace(tail[2 * j + 1], nf[j]) by {
                    if j < f.len() {
                        assert(tail[2 * j] == old_tail[2 * j]) by {
                            assert(r@[b + 2 * j] == before[b + 2 * j]);
                        }
                        assert(tail[2 * j + 1] == old_tail[2 * j + 1]) by {
                            assert(r@[b + 2 * j + 1] == before[b + 2 * j + 1]);
                        }
                        assert(loads_workspace(old_tail[2 * j], f[j]));
                    }
                }
            }
        }
        i = i + 1;
    }
    proof {
        assert(ws.take(i as int) =~= ws);
    }
    let ghost before = r@;
    r.push(command_entry(CommandId::Exit, CommandCategory::System, "Exit Panopticon", "quit exit close app"));
    proof {
        assert(r@.take(b) =~= before.take(b));
        assert(r@.subrange(b, b + 2 * ws.filter(p).len()) =~= before.subrange(b, before.len() as int));
    }
    r
}

/// `e` filters the dashboard to the monitor `m`.
pub open spec fn monitor_filter_entry(e: CommandEntry, m: Seq<char>) -> bool {
    &&& e.id matches CommandId::SetMonitorFilter(x) && x@ == m
    &&& e.category == CommandCategory::Filters
    &&& e.title@ == "Filters: Monitor "@ + m
    &&& e.keywords@ == "filters monitor set "@ + m
}

/// `e` filters the dashboard to the tag `t`.
pub open spec fn tag_filter_entry(e: CommandEntry, t: Seq<char>) -> bool {
    &&& e.id matches CommandId::SetTagFilter(x) && x@ == t
    &&& e.category == CommandCategory::Filters
    &&& e.title@ == "Filters: Tag "@ + t
    &&& e.keywords@ == "filters tag set "@ + t
}

/// `e` hides the application `a`.
pub open spec fn hide_app_entry(e: CommandEntry, a: AppSelectionEntry) -> bool {
    &&& e.id matches CommandId::HideApp(x, y) && x@ == a.app_id@ && y@ == a.label@
    &&& e.category == CommandCategory::Windows
    &&& e.title@ == "Windows: Hide "@ + a.label@
    &&& e.keywords@ == "windows hide "@ + a.label@ + " "@ + a.app_id@
}

/// `e` filters the dashboard to the application `a`.
pub open spec fn app_filter_entry(e: CommandEntry, a: AppSelectionEntry) -> bool {
    &&& e.id matches CommandId::SetAppFilter(x) && x@ == a.app_id@
    &&& e.category == CommandCategory::Filters
    &&& e.title@ == "Filters: App "@ + a.label@
    &&& e.keywords@ == "filters app set "@ + a.label@ + " "@ + a.app_id@
}

/// `e` shows the hidden application `a` again.
pub open spec fn restore_hidden_entry(e: CommandEntry, a: AppSelectionEntry) -> bool {
    &&& e.id matches CommandId::RestoreHiddenApp(x) && x@ == a.app_id@
    &&& e.category == CommandCategory::Windows
    &&& e.title@ == "Windows: Restore hidden "@ + a.label@
    &&& e.keywords@ == "windows hidden restore "@ + a.label@ + " "@ + a.app_id@
}

/// `a + b` as a new string.
fn concat2(a: &str, b: &str) -> (r: String)
    ensures
        r@ == a@ + b@,
{
    let mut s = String::new();
    s.append(a);
    s.append(b);
    s
}

/// `a + b + c` as a new string.
fn concat3(a: &str, b: &str, c: &str) -> (r: String)
    ensures
        r@ == a@ + b@ + c@,
{
    let mut s = String::new();
    s.append(a);
    s.append(b);
    s.append(c);
    s
}

/// Appends a monitor-filter entry for each monitor.
fn append_monitor_entries(r: &mut Vec<CommandEntry>, monitors: &Vec<String>)
    ensures
        final(r)@.len() == old(r)@.len() + monitors@.len(),
        final(r)@.take(old(r)@.len() as int) == old(r)@,
        forall|j: int|
            0 <= j < monitors@.len() ==> monitor_filter_entry(
                #[trigger] final(r)@[old(r)@.len() + j],
                monitors@[j]@,
            ),
{
    let ghost start = r@;
    let mut i: usize = 0;
    while i < monitors.len()
        invariant
            i <= monitors.len(),
            r@.len() == start.len() + i,
            r@.take(start.len() as int) == start,
            forall|j: int|
                0 <= j < i ==> monitor_filter_entry(#[trigger] r@[start.len() + j], monitors@[j]@),
        decreases monitors.len() - i,
    {
        let m = monitors[i].as_str();
        let entry = CommandEntry {
            id: CommandId::SetMonitorFilter(monitors[i].clone()),
            category: CommandCategory::Filters,
            title: concat2("Filters: Monitor ", m),
            keywords: concat2("filters monitor set ", m),
        };
        proof {
            assert(entry.title@ =~= "Filters: Monitor "@ + m@);
            assert(entry.keywords@ =~= "filters monitor set "@ + m@);
        }
        let ghost before = r@;
        r.push(entry);
        proof {
            assert(r@.take(start.len() as int) =~= before.take(start.len() as int));
            assert forall|j: int| 0 <= j < i + 1 implies monitor_filter_entry(
                #[trigger] r@[start.len() + j],
                monitors@[j]@,
            ) by {
                if j < i {
                    assert(r@[start.len() + j] == before[start.len() + j]);
                }
            }
        }
        i = i + 1;
    }
}

/// Appends a tag-filter entry for each tag.
fn append_tag_entries(r: &mut Vec<CommandEntry>, tags: &Vec<String>)
    ensures
        final(r)@.len() == old(r)@.len() + tags@.len(),
        final(r)@.take(old(r)@.len() as int) == old(r)@,
        forall|j: int|
            0 <= j < tags@.len() ==> tag_filter_entry(
                #[trigger] final(r)@[old(r)@.len() + j],
                tags@[j]@,
            ),
{
    let ghost start = r@;
    let mut i: usize = 0;
    while i < tags.len()
        invariant
            i <= tags.len(),
            r@.len() == start.len() + i,
            r@.take(start.len() as int) == start,
            forall|j: int|
                0 <= j < i ==> tag_filter_entry(#[trigger] r@[start.len() + j], tags@[j]@),
        decreases tags.len() - i,
    {
        let t = tags[i].as_str();
        let entry = CommandEntry {
            id: CommandId::SetTagFilter(tags[i].clone()),
            category: CommandCategory::Filters,
            title: concat2("Filters: Tag ", t),
            keywords: concat2("filters tag set ", t),
        };
        proof {
            assert(entry.title@ =~= "Filters: Tag "@ + t@);
            assert(entry.keywords@ =~= "filters tag set "@ + t@);
        }
        let ghost before = r@;
        r.push(entry);
        proof {
            assert(r@.take(start.len() as int) =~= before.take(start.len() as int));
            assert forall|j: int| 0 <= j < i + 1 implies tag_filter_entry(
                #[trigger] r@[start.len() + j],
                tags@[j]@,
            ) by {
                if j < i {
                    assert(r@[start.len() + j] == before[start.len() + j]);
                }
            }
        }
        i = i + 1;
    }
}

/// Appends, for each application, a hide entry and an application-filter entry.
fn append_app_entries(r: &mut Vec<CommandEntry>, apps: &Vec<AppSelectionEntry>)
    ensures
        final(r)@.len() == old(r)@.len() + 2 * apps@.len(),
        final(r)@.take(old(r)@.len() as int) == old(r)@,
        forall|j: int|
            0 <= j < apps@.len() ==> hide_app_entry(
                #[trigger] final(r)@[old(r)@.len() + 2 * j],
                apps@[j],
            ) && app_filter_entry(final(r)@[old(r)@.len() + 2 * j + 1], apps@[j]),
{
    let ghost start = r@;
    let mut i: usize = 0;
    while i < apps.len()
        invariant
            i <= apps.len(),
            r@.len() == start.len() + 2 * i,
            r@.take(start.len() as int) == start,
            forall|j: int|
                0 <= j < i ==> hide_app_entry(#[trigger] r@[start.len() + 2 * j], apps@[j])
                    && app_filter_entry(r@[start.len() + 2 * j + 1], apps@[j]),
        decreases apps.len() - i,
    {
        let label = apps[i].label.as_str();
        let app_id = apps[i].app_id.as_str();
        let hide = CommandEntry {
            id: CommandId::HideApp(apps[i].app_id.clone(), apps[i].label.clone()),
            category: CommandCategory::Windows,
            title: concat2("Windows: Hide ", label),
            keywords: concat3("windows hide ", label, " ").concat(app_id),
        };
        let filter = CommandEntry {
            id: CommandId::SetAppFilter(apps[i].app_id.clone()),
            category: CommandCategory::Filters,
            title: concat2("Filters: App ", label),
            keywords: concat3("filters app set ", label, " ").concat(app_id),
        };
        proof {
            assert(hide.title@ =~= "Windows: Hide "@ + label@);
            assert(hide.keywords@ =~= "windows hide "@ + label@ + " "@ + app_id@);
            assert(filter.title@ =~= "Filters: App "@ + label@);
            assert(filter.keywords@ =~= "filters app set "@ + label@ + " "@ + app_id@);
        }
        let ghost before = r@;
        r.push(hide);
        r.push(filter);
        proof {
            assert(r@.take(start.len() as int) =~= before.take(start.len() as int));
            assert forall|j: int| 0 <= j < i + 1 implies hide_app_entry(
                #[trigger] r@[start.len() + 2 * j],
                apps@[j],
            ) && app_filter_entry(r@[start.len() + 2 * j + 1], apps@[j]) by {
                if j < i {
                    assert(r@[start.len() + 2 * j] == before[start.len() + 2 * j]);
                    assert(r@[start.len() + 2 * j + 1] == before[start.len() + 2 * j + 1]);
                }
            }
        }
        i = i + 1;
    }
}

/// Appends a restore entry for each hidden application.
fn append_restore_entries(r: &mut Vec<CommandEntry>, hidden: &Vec<AppSelectionEntry>)
    ensures
        final(r)@.len() == old(r)@.len() + hidden@.len(),
        final(r)@.take(old(r)@.len() as int) == old(r)@,
        forall|j: int|
            0 <= j < hidden@.len() ==> restore_hidden_entry(
                #[trigger] final(r)@[old(r)@.len() + j],
                hidden@[j],
            ),
{
    let ghost start = r@;
    let mut i: usize = 0;
    while i < hidden.len()
        invariant
            i <= hidden.len(),
            r@.len() == start.len() + i,
            r@.take(start.len() as int) == start,
            forall|j: int|
                0 <= j < i ==> restore_hidden_entry(#[trigger] r@[start.len() + j], hidden@[j]),
        decreases hidden.len() - i,
    {
        let label = hidden[i].label.as_str();
        let app_id = hidden[i].app_id.as_str();
        let entry = CommandEntry {
            id: CommandId::RestoreHiddenApp(hidden[i].app_id.clone()),
            category: CommandCategory::Windows,
            title: concat2("Windows: Restore hidden ", label),
            keywords: concat3("windows hidden restore ", label, " ").concat(app_id),
        };
        proof {
            assert(entry.title@ =~= "Windows: Restore hidden "@ + label@);
            assert(entry.keywords@ =~= "windows hidden restore "@ + label@ + " "@ + app_id@);
        }
        let ghost before = r@;
        r.push(entry);
        proof {
            assert(r@.take(start.len() as int) =~= before.take(start.len() as int));
            assert forall|j: int| 0 <= j < i + 1 implies restore_hidden_entry(
                #[trigger] r@[start.len() + j],
                hidden@[j],
            ) by {
                if j < i {
                    assert(r@[start.len() + j] == before[start.len() + j]);
                }
            }
        }
        i = i + 1;
    }
}

/// The catalogue followed by the commands of the current session: a filter
/// for each monitor and each tag, a hide command and a filter for each
/// running application, and a restore command for each hidden application.
pub fn command_entries_for_state(
    workspaces: &Vec<String>,
    monitors: &Vec<String>,
    tags: &Vec<String>,
    apps: &Vec<AppSelectionEntry>,
    hidden: &Vec<AppSelectionEntry>,
) -> (r: Vec<CommandEntry>)
    ensures
        ({
            let c = r@.len() - monitors@.len() - tags@.len() - 2 * apps@.len() - hidden@.len();
            let m0 = c;
            let t0 = m0 + monitors@.len();
            let a0 = t0 + tags@.len();
            let h0 = a0 + 2 * apps@.len();
            &&& is_catalogue(r@.take(c), string_views(workspaces@))
            &&& forall|j: int| 0 <= j < monitors@.len() ==> monitor_filter_entry(#[trigger] r@[m0 + j], monitors@[j]@)
            &&& forall|j: int| 0 <= j < tags@.len() ==> tag_filter_entry(#[trigger] r@[t0 + j], tags@[j]@)
            &&& forall|j: int|
                0 <= j < apps@.len() ==> hide_app_entry(#[trigger] r@[a0 + 2 * j], apps@[j])
                    && app_filter_entry(r@[a0 + 2 * j + 1], apps@[j])
            &&& forall|j: int| 0 <= j < hidden@.len() ==> restore_hidden_entry(#[trigger] r@[h0 + j], hidden@[j])
        }),
{
    let mut r = command_entries(workspaces);
    let ghost c0 = r@;
    append_monitor_entries(&mut r, monitors);
    let ghost c1 = r@;
    append_tag_entries(&mut r, tags);
    let ghost c2 = r@;
    append_app_entries(&mut r, apps);
    let ghost c3 = r@;
    append_restore_entries(&mut r, hidden);
    proof {
        let c = c0.len() as int;
        assert(r@.take(c) =~= c0) by {
            assert(r@.take(c3.len() as int) == c3);
            assert(c3.take(c2.len() as int) == c2);
            assert(c2.take(c1.len() as int) == c1);
            assert(c1.take(c) == c0);
            assert forall|k: int| 0 <= k < c implies r@[k] == c0[k] by {
                assert(r@.take(c3.len() as int)[k] == c3[k]);
                assert(c3.take(c2.len() as int)[k] == c2[k]);
                assert(c2.take(c1.len() as int)[k] == c1[k]);
                assert(c1.take(c)[k] == c0[k]);
            }
        }
        assert forall|j: int| 0 <= j < monitors@.len() implies monitor_filter_entry(
            #[trigger] r@[c + j],
            monitors@[j]@,
        ) by {
            assert(r@.take(c3.len() as int)[c + j] == c3[c + j]);
            assert(c3.take(c2.len() as int)[c + j] == c2[c + j]);
            assert(c2.take(c1.len() as int)[c + j] == c1[c + j]);
        }
        assert forall|j: int| 0 <= j < tags@.len() implies tag_filter_entry(
            #[trigger] r@[c1.len() + j],
            tags@[j]@,
        ) by {
            assert(r@.take(c3.len() as int)[c1.len() + j] == c3[c1.len() + j]);
            assert(c3.take(c2.len() as int)[c1.len() + j] == c2[c1.len() + j]);
        }
        assert forall|j: int| 0 <= j < apps@.len() implies hide_app_entry(
            #[trigger] r@[c2.len() + 2 * j],
            apps@[j],
        ) && app_filter_entry(r@[c2.len() + 2 * j + 1], apps@[j]) by {
            assert(r@.take(c3.len() as int)[c2.len() + 2 * j] == c3[c2.len() + 2 * j]);
            assert(r@.take(c3.len() as int)[c2.len() + 2 * j + 1] == c3[c2.len() + 2 * j + 1]);
        }
    }
    r
}

/// Only one order lists the scored entries by `precedes`: the result of
/// `order_by_score` is fully determined by the titles and scores.
pub proof fn lemma_ranking_is_unique(
    titles: Seq<Seq<char>>,
    scores: Seq<Option<i32>>,
    a: Seq<usize>,
    b: Seq<usize>,
)
    requires
        scores.len() <= usize::MAX,
        is_ranking(titles, scores, a),
        is_ranking(titles, scores, b),
    ensures
        a == b,
    decreases a.len(),
{
    if a.len() == 0 {
        if b.len() > 0 {
            assert(b.contains(b[0]));
            assert(scores[b[0] as int] is Some);
        }
        assert(a =~= b);
    } else if b.len() == 0 {
        assert(a.contains(a[0]));
        assert(scores[a[0] as int] is Some);
    } else {
        let x = a.last();
        let y = b.last();
        assert(a.contains(x));
        assert(b.contains(y));
        assert(scores[x as int] is Some && scores[y as int] is Some);
        assert(b.contains(x) && a.contains(y));
        if x != y {
            let ix = choose|i: int| 0 <= i < b.len() && b[i] == x;
            let iy = choose|i: int| 0 <= i < a.len() && a[i] == y;
            assert(precedes(titles, scores, x as int, y as int)) by {
                assert(ix < b.len() - 1);
            }
            assert(precedes(titles, scores, y as int, x as int)) by {
                assert(iy < a.len() - 1);
            }
            lemma_precedes_transitive(titles, scores, x as int, y as int, x as int);
            lemma_precedes_irreflexive(titles, scores, x as int);
        }
        let a2 = a.drop_last();
        let b2 = b.drop_last();
        let s2 = Seq::new(scores.len(), |i: int| if i == x as int { None } else { scores[i] });
        assert forall|i: int, j: int| 0 <= i < j < a2.len() implies a2[i] != a2[j] by {
            assert(precedes(titles, scores, a[i] as int, a[j] as int));
            lemma_precedes_irreflexive(titles, scores, a[i] as int);
        }
        assert(is_ranking(titles, s2, a2) && is_ranking(titles, s2, b2)) by {
            assert forall|a0: int, a1: int| 0 <= a0 < a1 < a2.len() implies precedes(
                titles,
                s2,
                #[trigger] a2[a0] as int,
                #[trigger] a2[a1] as int,
            ) by {
                assert(precedes(titles, scores, a[a0] as int, a[a1] as int));
                assert(a2[a0] != x) by {
                    assert(precedes(titles, scores, a[a0] as int, a[a.len() - 1] as int));
                    lemma_precedes_irreflexive(titles, scores, x as int);
                }
                assert(a2[a1] != x) by {
                    assert(precedes(titles, scores, a[a1] as int, a[a.len() - 1] as int));
                    lemma_precedes_irreflexive(titles, scores, x as int);
                }
            }
            assert forall|a0: int, a1: int| 0 <= a0 < a1 < b2.len() implies precedes(
                titles,
                s2,
                #[trigger] b2[a0] as int,
                #[trigger] b2[a1] as int,
            ) by {
                assert(precedes(titles, scores, b[a0] as int, b[a1] as int));
                assert(b2[a0] != x) by {
                    assert(precedes(titles, scores, b[a0] as int, b[b.len() - 1] as int));
                    lemma_precedes_irreflexive(titles, scores, x as int);
                }
                assert(b2[a1] != x) by {
                    assert(precedes(titles, scores, b[a1] as int, b[b.len() - 1] as int));
                    lemma_precedes_irreflexive(titles, scores, x as int);
                }
            }
            assert forall|i: int| 0 <= i < s2.len() implies (s2[i] is Some <==> a2.contains(
                i as usize,
            )) by {
                if a2.contains(i as usize) {
                    let k = choose|k: int| 0 <= k < a2.len() && a2[k] == i as usize;
                    assert(a.contains(i as usize) && a[k] == i as usize);
                    assert(i != x as int) by {
                        assert(precedes(titles, scores, a[k] as int, a[a.len() - 1] as int));
                        lemma_precedes_irreflexive(titles, scores, x as int);
                    }
                }
                if s2[i] is Some {
                    assert(a.contains(i as usize));
                    let k = choose|k: int| 0 <= k < a.len() && a[k] == i as usize;
                    assert(i != x as int);
                    assert(k != a.len() - 1);
                    assert(a2[k] == i as usize);
                }
            }
            assert forall|i: int| 0 <= i < s2.len() implies (s2[i] is Some <==> b2.contains(
                i as usize,
            )) by {
                if b2.contains(i as usize) {
                    let k = choose|k: int| 0 <= k < b2.len() && b2[k] == i as usize;
                    assert(b.contains(i as usize) && b[k] == i as usize);
                    assert(i != x as int) by {
                        assert(precedes(titles, scores, b[k] as int, b[b.len() - 1] as int));
                        lemma_precedes_irreflexive(titles, scores, x as int);
                    }
                }
                if s2[i] is Some {
                    assert(b.contains(i as usize));
                    let k = choose|k: int| 0 <= k < b.len() && b[k] == i as usize;
                    assert(i != x as int);
                    assert(k != b.len() - 1);
                    assert(b2[k] == i as usize);
                }
            }
        }
        lemma_ranking_is_unique(titles, s2, a2, b2);
        assert(a =~= b) by {
            assert(a == a2.push(x));
            assert(b == b2.push(y));
        }
    }
}

// ---------------------------------------------------------------------------
// Running a command
// ---------------------------------------------------------------------------

/// What the dashboard refreshes after a command changed its state.
#[derive(Debug, Clone, Copy, PartialEq, Eq, Structural)]
pub enum CommandFollowUp {
    /// The command opens a window, starts another instance, exits or
    /// refreshes by itself: nothing more to do.
    Nothing,
    /// Redraw the dashboard.
    RefreshUi,
    /// Enumerate the windows again, and redraw when anything changed.
    RefreshWindows,
}

/// The refresh that follows a command.
pub open spec fn follow_up_spec(id: CommandId) -> CommandFollowUp {
    match id {
        CommandId::CycleLayout | CommandId::ResetLayoutRatios | CommandId::CycleTheme
        | CommandId::ToggleAnimations | CommandId::ToggleToolbar | CommandId::ToggleWindowInfo
        | CommandId::ToggleAlwaysOnTop => CommandFollowUp::RefreshUi,
        CommandId::RefreshNow | CommandId::RestoreAllHiddenApps | CommandId::HideApp(_, _)
        | CommandId::ClearAllFilters | CommandId::SetMonitorFilter(_) | CommandId::SetTagFilter(_)
        | CommandId::SetAppFilter(_) | CommandId::ClearMonitorFilter | CommandId::ClearTagFilter
        | CommandId::ClearAppFilter | CommandId::RestoreHiddenApp(_) => CommandFollowUp::RefreshWindows,
        _ => CommandFollowUp::Nothing,
    }
}

/// The refresh that follows a command: the layout, theme and display
/// toggles redraw the dashboard; the commands that change which windows are
/// shown (filters, hidden applications, refreshing) enumerate the windows
/// again; the others need nothing more.
pub fn command_follow_up(id: &CommandId) -> (r: CommandFollowUp)
    ensures
        r == follow_up_spec(*id),
{
    match id {
        CommandId::CycleLayout | CommandId::ResetLayoutRatios | CommandId::CycleTheme
        | CommandId::ToggleAnimations | CommandId::ToggleToolbar | CommandId::ToggleWindowInfo
        | CommandId::ToggleAlwaysOnTop => CommandFollowUp::RefreshUi,
        CommandId::RefreshNow | CommandId::RestoreAllHiddenApps | CommandId::HideApp(_, _)
        | CommandId::ClearAllFilters | CommandId::SetMonitorFilter(_) | CommandId::SetTagFilter(_)
        | CommandId::SetAppFilter(_) | CommandId::ClearMonitorFilter | CommandId::ClearTagFilter
        | CommandId::ClearAppFilter | CommandId::RestoreHiddenApp(_) => CommandFollowUp::RefreshWindows,
        _ => CommandFollowUp::Nothing,
    }
}

/// What follows each command: the layout cycling, layout-ratio reset, theme
/// cycling and display toggles redraw the dashboard; refreshing, restoring
/// and hiding applications and every filter change enumerate the windows
/// again; choosing a layout, opening a window or the menu, loading or
/// opening a workspace and exiting need nothing more.
pub proof fn lemma_follow_up_of_each_command(
    layout: LayoutType,
    a: String,
    b: String,
    w: Option<String>,
)
    ensures
        follow_up_spec(CommandId::CycleLayout) == CommandFollowUp::RefreshUi,
        follow_up_spec(CommandId::ResetLayoutRatios) == CommandFollowUp::RefreshUi,
        follow_up_spec(CommandId::CycleTheme) == CommandFollowUp::RefreshUi,
        follow_up_spec(CommandId::ToggleAnimations) == CommandFollowUp::RefreshUi,
        follow_up_spec(CommandId::ToggleToolbar) == CommandFollowUp::RefreshUi,
        follow_up_spec(CommandId::ToggleWindowInfo) == CommandFollowUp::RefreshUi,
        follow_up_spec(CommandId::ToggleAlwaysOnTop) == CommandFollowUp::RefreshUi,
        follow_up_spec(CommandId::RefreshNow) == CommandFollowUp::RefreshWindows,
        follow_up_spec(CommandId::RestoreAllHiddenApps) == CommandFollowUp::RefreshWindows,
        follow_up_spec(CommandId::HideApp(a, b)) == CommandFollowUp::RefreshWindows,
        follow_up_spec(CommandId::ClearAllFilters) == CommandFollowUp::RefreshWindows,
        follow_up_spec(CommandId::SetMonitorFilter(a)) == CommandFollowUp::RefreshWindows,
        follow_up_spec(CommandId::SetTagFilter(a)) == CommandFollowUp::RefreshWindows,
        follow_up_spec(CommandId::SetAppFilter(a)) == CommandFollowUp::RefreshWindows,
        follow_up_spec(CommandId::ClearMonitorFilter) == CommandFollowUp::RefreshWindows,
        follow_up_spec(CommandId::ClearTagFilter) == CommandFollowUp::RefreshWindows,
        follow_up_spec(CommandId::ClearAppFilter) == CommandFollowUp::RefreshWindows,
        follow_up_spec(CommandId::RestoreHiddenApp(a)) == CommandFollowUp::RefreshWindows,
        follow_up_spec(CommandId::SetLayout(layout)) == CommandFollowUp::Nothing,
        follow_up_spec(CommandId::OpenSettings) == CommandFollowUp::Nothing,
        follow_up_spec(CommandId::OpenSettingsBehaviorPage) == CommandFollowUp::Nothing,
        follow_up_spec(CommandId::OpenSettingsFiltersPage) == CommandFollowUp::Nothing,
        follow_up_spec(CommandId::OpenSettingsWorkspacesPage) == CommandFollowUp::Nothing,
        follow_up_spec(CommandId::OpenSettingsShortcutsPage) == CommandFollowUp::Nothing,
        follow_up_spec(CommandId::OpenSettingsAdvancedPage) == CommandFollowUp::Nothing,
        follow_up_spec(CommandId::OpenAbout) == CommandFollowUp::Nothing,
        follow_up_spec(CommandId::OpenMenu) == CommandFollowUp::Nothing,
        follow_up_spec(CommandId::LoadWorkspace(w)) == CommandFollowUp::Nothing,
        follow_up_spec(CommandId::OpenWorkspaceInNewInstance(w)) == CommandFollowUp::Nothing,
        follow_up_spec(CommandId::Exit) == CommandFollowUp::Nothing,
{
}

/// The settings page a command opens, by its position in the settings
/// window: behaviour 0, filters 1, workspaces 3, shortcuts 4, advanced 5.
pub open spec fn settings_page_spec(id: CommandId) -> Option<i32> {
    match id {
        CommandId::OpenSettingsBehaviorPage => Some(0),
        CommandId::OpenSettingsFiltersPage => Some(1),
        CommandId::OpenSettingsWorkspacesPage => Some(3),
        CommandId::OpenSettingsShortcutsPage => Some(4),
        CommandId::OpenSettingsAdvancedPage => Some(5),
        _ => None,
    }
}

/// The settings page a command opens, if it opens one directly.
pub fn settings_page_for_command(id: &CommandId) -> (r: Option<i32>)
    ensures
        r == settings_page_spec(*id),
{
    match id {
        CommandId::OpenSettingsBehaviorPage => Some(0),
        CommandId::OpenSettingsFiltersPage => Some(1),
        CommandId::OpenSettingsWorkspacesPage => Some(3),
        CommandId::OpenSettingsShortcutsPage => Some(4),
        CommandId::OpenSettingsAdvancedPage => Some(5),
        _ => None,
    }
}

/// Each settings-page command opens its own page, numbered as the settings
/// window orders them: behaviour 0, filters 1, workspaces 3, shortcuts 4,
/// advanced 5; no other command opens a page.
pub proof fn lemma_settings_pages_of_commands(id: CommandId)
    ensures
        settings_page_spec(CommandId::OpenSettingsBehaviorPage) == Some(0i32),
        settings_page_spec(CommandId::OpenSettingsFiltersPage) == Some(1i32),
        settings_page_spec(CommandId::OpenSettingsWorkspacesPage) == Some(3i32),
        settings_page_spec(CommandId::OpenSettingsShortcutsPage) == Some(4i32),
        settings_page_spec(CommandId::OpenSettingsAdvancedPage) == Some(5i32),
        settings_page_spec(id) is Some <==> (id == CommandId::OpenSettingsBehaviorPage || id
            == CommandId::OpenSettingsFiltersPage || id == CommandId::OpenSettingsWorkspacesPage
            || id == CommandId::OpenSettingsShortcutsPage || id
            == CommandId::OpenSettingsAdvancedPage),
{
}

/// Two commands that open a settings page open the same page only when they
/// are the same command.
pub proof fn lemma_settings_pages_are_distinct(a: CommandId, b: CommandId)
    requires
        settings_page_spec(a) is Some,
        settings_page_spec(a) == settings_page_spec(b),
    ensures
        a == b,
{
}

} // verus!
