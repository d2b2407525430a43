//! Tag lists typed as comma-separated text.
use vstd::prelude::*;

use crate::format::join_spec;
use crate::text::{
    is_whitespace_spec, lower_char, lower_seq, push_char, to_ascii_lowercase, trim, trim_end_spec,
    trim_spec, trim_start_spec,
};

verus! {

/// The pieces of `s` between commas, in order; text without commas is one piece.
pub open spec fn split_commas(s: Seq<char>) -> Seq<Seq<char>>
    decreases s.len(),
{
    if s.len() == 0 {
        seq![Seq::<char>::empty()]
    } else {
        let prev = split_commas(s.drop_last());
        if s.last() == ',' {
            prev.push(Seq::empty())
        } else {
            prev.update(prev.len() - 1, prev.last().push(s.last()))
        }
    }
}

/// The tag a comma-separated piece stands for, if any: trimmed and ASCII
/// lower-cased, or nothing for a blank piece.
pub open spec fn piece_tag(piece: Seq<char>) -> Option<Seq<char>> {
    if trim_spec(piece).len() > 0 {
        Some(lower_seq(trim_spec(piece)))
    } else {
        None
    }
}

/// `t` is the tag of some piece of `pieces`.
pub open spec fn is_tag_of(pieces: Seq<Seq<char>>, t: Seq<char>) -> bool {
    exists|i: int| 0 <= i < pieces.len() && #[trigger] piece_tag(pieces[i]) == Some(t)
}

/// Lexicographic order of character sequences by code point, as `String`
/// orders its text.
pub open spec fn lex_lt(a: Seq<char>, b: Seq<char>) -> bool
    decreases a.len(),
{
    if a.len() == 0 {
        b.len() > 0
    } else if b.len() == 0 {
        false
    } else if a[0] != b[0] {
        a[0] < b[0]
    } else {
        lex_lt(a.drop_first(), b.drop_first())
    }
}

/// `s` is strictly increasing in lexicographic order.
pub open spec fn strictly_sorted(s: Seq<Seq<char>>) -> bool {
    forall|i: int, j: int| 0 <= i < j < s.len() ==> lex_lt(#[trigger] s[i], #[trigger] s[j])
}

/// Lexicographic order is irreflexive.
pub proof fn lemma_lex_lt_irreflexive(a: Seq<char>)
    ensures
        !lex_lt(a, a),
    decreases a.len(),
{
    if a.len() > 0 {
        lemma_lex_lt_irreflexive(a.drop_first());
    }
}

/// Lexicographic order is transitive.
pub proof fn lemma_lex_lt_transitive(a: Seq<char>, b: Seq<char>, c: Seq<char>)
    requires
        lex_lt(a, b),
        lex_lt(b, c),
    ensures
        lex_lt(a, c),
    decreases a.len(),
{
    if a.len() > 0 && b.len() > 0 && c.len() > 0 && a[0] == b[0] && b[0] == c[0] {
        lemma_lex_lt_transitive(a.drop_first(), b.drop_first(), c.drop_first());
    }
}

/// Lexicographic order is total on distinct sequences.
pub proof fn lemma_lex_lt_total(a: Seq<char>, b: Seq<char>)
    ensures
        a == b || lex_lt(a, b) || lex_lt(b, a),
    decreases a.len(),
{
    if a.len() > 0 && b.len() > 0 && a[0] == b[0] {
        lemma_lex_lt_total(a.drop_first(), b.drop_first());
        if a.drop_first() == b.drop_first() {
            assert(a =~= seq![a[0]] + a.drop_first());
            assert(b =~= seq![b[0]] + b.drop_first());
        }
    } else if a.len() == 0 && b.len() == 0 {
        assert(a =~= b);
    }
}

/// Two strictly sorted sequences with the same elements are equal, so sorting
/// and removing duplicates has exactly one outcome.
pub proof fn lemma_strictly_sorted_unique(s: Seq<Seq<char>>, t: Seq<Seq<char>>)
    requires
        strictly_sorted(s),
        strictly_sorted(t),
        forall|x: Seq<char>| s.contains(x) <==> t.contains(x),
    ensures
        s == t,
    decreases s.len(),
{
    if s.len() == 0 {
        if t.len() > 0 {
            assert(t.contains(t[0]));
        }
        assert(s =~= t);
    } else if t.len() == 0 {
        assert(s.contains(s[0]));
    } else {
        // The last elements are the greatest of equal sets, hence equal.
        let a = s.last();
        let b = t.last();
        assert(s.contains(a));
        assert(t.contains(b));
        let ia = choose|i: int| 0 <= i < t.len() && t[i] == a;
        let ib = choose|i: int| 0 <= i < s.len() && s[i] == b;
        if a != b {
            lemma_lex_lt_total(a, b);
            if lex_lt(a, b) {
                // b is in s at ib <= last, so b <= a
                if ib < s.len() - 1 {
                    assert(lex_lt(s[ib], s[s.len() - 1]));
                    lemma_lex_lt_transitive(a, b, a);
                    lemma_lex_lt_irreflexive(a);
                }
            } else {
                if ia < t.len() - 1 {
                    assert(lex_lt(t[ia], t[t.len() - 1]));
                    lemma_lex_lt_transitive(b, a, b);
                    lemma_lex_lt_irreflexive(b);
                }
            }
        }
        let s2 = s.drop_last();
        let t2 = t.drop_last();
        assert forall|x: Seq<char>| s2.contains(x) <==> t2.contains(x) by {
            if s2.contains(x) {
                let i = choose|i: int| 0 <= i < s2.len() && s2[i] == x;
                assert(lex_lt(s[i], s[s.len() - 1]));
                lemma_lex_lt_irreflexive(x);
                assert(t.contains(x));
                let j = choose|j: int| 0 <= j < t.len() && t[j] == x;
                if j == t.len() - 1 {
                    assert(x == a);
                }
                assert(t2[j] == x);
            }
            if t2.contains(x) {
                let i = choose|i: int| 0 <= i < t2.len() && t2[i] == x;
                assert(lex_lt(t[i], t[t.len() - 1]));
                lemma_lex_lt_irreflexive(x);
                assert(s.contains(x));
                let j = choose|j: int| 0 <= j < s.len() && s[j] == x;
                if j == s.len() - 1 {
                    assert(x == b);
                }
                assert(s2[j] == x);
            }
        }
        lemma_strictly_sorted_unique(s2, t2);
        assert(s =~= s2.push(a));
        assert(t =~= t2.push(b));
    }
}

/// Whether `a` comes strictly before `b` in lexicographic order.
pub fn lex_less(a: &str, b: &str) -> (r: bool)
    ensures
        r == lex_lt(a@, b@),
{
    let n = a.unicode_len();
    let m = b.unicode_len();
    let mut i: usize = 0;
    assert(a@.subrange(0, n as int) =~= a@);
    assert(b@.subrange(0, m as int) =~= b@);
    while i < n && i < m
        invariant
            n == a@.len(),
            m == b@.len(),
            i <= n,
            i <= m,
            forall|j: int| 0 <= j < i ==> a@[j] == b@[j],
            lex_lt(a@, b@) == lex_lt(a@.subrange(i as int, n as int), b@.subrange(i as int, m as int)),
        decreases n - i,
    {
        let x = a.get_char(i);
        let y = b.get_char(i);
        if x != y {
            proof {
                let sa = a@.subrange(i as int, n as int);
                let sb = b@.subrange(i as int, m as int);
                assert(sa[0] == x && sb[0] == y);
            }
            return x < y;
        }
        proof {
            let sa = a@.subrange(i as int, n as int);
            let sb = b@.subrange(i as int, m as int);
            assert(sa.drop_first() =~= a@.subrange(i + 1, n as int));
            assert(sb.drop_first() =~= b@.subrange(i + 1, m as int));
        }
        i = i + 1;
    }
    proof {
        let sa = a@.subrange(i as int, n as int);
        let sb = b@.subrange(i as int, m as int);
        assert(i == n ==> sa.len() == 0);
        assert(i == m ==> sb.len() == 0);
    }
    i == n && i < m
}

/// Inserts `tag` into the strictly sorted `tags`, unless it is already present.
fn insert_sorted_unique(tags: &mut Vec<String>, tag: String)
    requires
        strictly_sorted(crate::format::string_views(old(tags)@)),
    ensures
        strictly_sorted(crate::format::string_views(final(tags)@)),
        forall|x: Seq<char>|
            crate::format::string_views(final(tags)@).contains(x) <==> (crate::format::string_views(
                old(tags)@,
            ).contains(x) || x == tag@),
{
    let ghost v0 = crate::format::string_views(tags@);
    let mut i: usize = 0;
    while i < tags.len() && lex_less(tags[i].as_str(), tag.as_str())
        invariant
            i <= tags@.len(),
            tags@ == old(tags)@,
            v0 == crate::format::string_views(tags@),
            forall|j: int| 0 <= j < i ==> lex_lt(#[trigger] v0[j], tag@),
        decreases tags@.len() - i,
    {
        i = i + 1;
    }
    if i < tags.len() && crate::text::str_eq(tags[i].as_str(), tag.as_str()) {
        assert(v0[i as int] == tag@);
        assert(v0.contains(tag@));
        return;
    }
    proof {
        if i < v0.len() {
            lemma_lex_lt_total(v0[i as int], tag@);
        }
    }
    tags.insert(i, tag);
    proof {
        let v1 = crate::format::string_views(tags@);
        assert(v1 =~= v0.insert(i as int, tag@));
        assert forall|a: int, b: int| 0 <= a < b < v1.len() implies lex_lt(
            #[trigger] v1[a],
            #[trigger] v1[b],
        ) by {
            if b < i {
            } else if b == i {
            } else if a < i {
                assert(v1[b] == v0[b - 1]);
                if b - 1 > i {
                    assert(lex_lt(v0[i as int], v0[b - 1]));
                    lemma_lex_lt_transitive(v0[a], tag@, v0[i as int]);
                    lemma_lex_lt_transitive(v0[a], v0[i as int], v0[b - 1]);
                } else {
                    lemma_lex_lt_transitive(v0[a], tag@, v0[i as int]);
                }
            } else if a == i {
                assert(v1[b] == v0[b - 1]);
                if b - 1 > i {
                    assert(lex_lt(v0[i as int], v0[b - 1]));
                    lemma_lex_lt_transitive(tag@, v0[i as int], v0[b - 1]);
                }
            } else {
                assert(v1[a] == v0[a - 1]);
                assert(v1[b] == v0[b - 1]);
            }
        }
        assert forall|x: Seq<char>| v1.contains(x) <==> (v0.contains(x) || x == tag@) by {
            if v1.contains(x) {
                let k = choose|k: int| 0 <= k < v1.len() && v1[k] == x;
                if k < i {
                    assert(v0[k] == x);
                } else if k > i {
                    assert(v0[k - 1] == x);
                }
            }
            if v0.contains(x) {
                let k = choose|k: int| 0 <= k < v0.len() && v0[k] == x;
                if k < i {
                    assert(v1[k] == x);
                } else {
                    assert(v1[k + 1] == x);
                }
            }
            if x == tag@ {
                assert(v1[i as int] == x);
            }
        }
    }
}

/// Adds the tag of one comma-separated piece, if it has one.
fn add_piece(tags: &mut Vec<String>, piece: &String)
    requires
        strictly_sorted(crate::format::string_views(old(tags)@)),
    ensures
        strictly_sorted(crate::format::string_views(final(tags)@)),
        forall|x: Seq<char>|
            crate::format::string_views(final(tags)@).contains(x) <==> (crate::format::string_views(
                old(tags)@,
            ).contains(x) || piece_tag(piece@) == Some(x)),
{
    let trimmed = trim(piece.as_str());
    if trimmed.unicode_len() > 0 {
        let tag = to_ascii_lowercase(trimmed);
        insert_sorted_unique(tags, tag);
    }
}

/// Parses a comma-separated tag list: each piece is trimmed and ASCII
/// lower-cased, blank pieces are dropped, and the tags come out sorted with
/// duplicates removed.
pub fn parse_tags_csv(raw: &str) -> (r: Vec<String>)
    ensures
        strictly_sorted(crate::format::string_views(r@)),
        forall|t: Seq<char>|
            crate::format::string_views(r@).contains(t) <==> is_tag_of(split_commas(raw@), t),
{
    let n = raw.unicode_len();
    let mut tags: Vec<String> = Vec::new();
    let mut current = String::new();
    let mut i: usize = 0;
    proof {
        assert(raw@.subrange(0, 0) =~= Seq::<char>::empty());
        assert(crate::format::string_views(tags@) =~= Seq::<Seq<char>>::empty());
    }
    while i < n
        invariant
            n == raw@.len(),
            i <= n,
            split_commas(raw@.subrange(0, i as int)).len() > 0,
            current@ == split_commas(raw@.subrange(0, i as int)).last(),
            strictly_sorted(crate::format::string_views(tags@)),
            forall|t: Seq<char>|
                crate::format::string_views(tags@).contains(t) <==> is_tag_of(
                    split_commas(raw@.subrange(0, i as int)).drop_last(),
                    t,
                ),
        decreases n - i,
    {
        let c = raw.get_char(i);
        let ghost before = split_commas(raw@.subrange(0, i as int));
        proof {
            lemma_split_len(raw@.subrange(0, i + 1));
            assert(raw@.subrange(0, i + 1).drop_last() =~= raw@.subrange(0, i as int));
        }
        if c == ',' {
            let ghost old_tags = crate::format::string_views(tags@);
            add_piece(&mut tags, &current);
            current = String::new();
            proof {
                let after = split_commas(raw@.subrange(0, i + 1));
                assert(after == before.push(Seq::empty()));
                assert(after.drop_last() =~= before);
                assert forall|t: Seq<char>|
                    crate::format::string_views(tags@).contains(t) <==> is_tag_of(
                        after.drop_last(),
                        t,
                    ) by {
                    if is_tag_of(before, t) && !is_tag_of(before.drop_last(), t) {
                        let k = choose|k: int| 0 <= k < before.len() && #[trigger] piece_tag(before[k]) == Some(t);
                        if k < before.len() - 1 {
                            assert(before.drop_last()[k] == before[k]);
                        }
                    }
                    if is_tag_of(before.drop_last(), t) {
                        let k = choose|k: int| 0 <= k < before.drop_last().len() && #[trigger] piece_tag(before.drop_last()[k]) == Some(t);
                        assert(before[k] == before.drop_last()[k]);
                    }
                }
            }
        } else {
            push_char(&mut current, c);
            proof {
                let after = split_commas(raw@.subrange(0, i + 1));
                assert(after == before.update(before.len() - 1, before.last().push(c)));
                assert(after.drop_last() =~= before.drop_last());
            }
        }
        i = i + 1;
    }
    proof {
        assert(raw@.subrange(0, n as int) =~= raw@);
    }
    let ghost pieces = split_commas(raw@);
    add_piece(&mut tags, &current);
    proof {
        assert forall|t: Seq<char>|
            crate::format::string_views(tags@).contains(t) <==> is_tag_of(pieces, t) by {
            if is_tag_of(pieces, t) && !is_tag_of(pieces.drop_last(), t) {
                let k = choose|k: int| 0 <= k < pieces.len() && #[trigger] piece_tag(pieces[k]) == Some(t);
                if k < pieces.len() - 1 {
                    assert(pieces.drop_last()[k] == pieces[k]);
                }
            }
            if is_tag_of(pieces.drop_last(), t) {
                let k = choose|k: int| 0 <= k < pieces.drop_last().len() && #[trigger] piece_tag(pieces.drop_last()[k]) == Some(t);
                assert(pieces[k] == pieces.drop_last()[k]);
            }
        }
    }
    tags
}

/// Splitting never yields an empty list of pieces.
proof fn lemma_split_len(s: Seq<char>)
    ensures
        split_commas(s).len() > 0,
    decreases s.len(),
{
    if s.len() > 0 {
        lemma_split_len(s.drop_last());
    }
}

/// A tag as `parse_tags_csv` produces it: not empty, without surrounding
/// white space, ASCII lower-case and without commas.
pub open spec fn is_normal_tag(t: Seq<char>) -> bool {
    &&& t.len() > 0
    &&& trim_spec(t) == t
    &&& lower_seq(t) == t
    &&& !t.contains(',')
}

proof fn lemma_split_append(a: Seq<char>, b: Seq<char>)
    requires
        !b.contains(','),
    ensures
        split_commas(a + b) == split_commas(a).update(
            split_commas(a).len() - 1,
            split_commas(a).last() + b,
        ),
    decreases b.len(),
{
    lemma_split_len(a);
    if b.len() == 0 {
        assert(a + b =~= a);
        assert(split_commas(a).last() + b =~= split_commas(a).last());
        assert(split_commas(a).update(split_commas(a).len() - 1, split_commas(a).last())
            =~= split_commas(a));
    } else {
        let b0 = b.drop_last();
        let c = b.last();
        assert(!b0.contains(',')) by {
            if b0.contains(',') {
                let k = choose|k: int| 0 <= k < b0.len() && b0[k] == ',';
                assert(b[k] == ',');
            }
        }
        assert(c != ',') by {
            assert(b[b.len() - 1] == c);
        }
        lemma_split_append(a, b0);
        assert((a + b).drop_last() =~= a + b0);
        assert((a + b).last() == c);
        lemma_split_len(a + b0);
        let sa = split_commas(a);
        assert(sa.last() + b =~= (sa.last() + b0).push(c));
        assert(split_commas(a + b) =~= sa.update(sa.len() - 1, sa.last() + b));
    }
}

proof fn lemma_split_join(ts: Seq<Seq<char>>)
    requires
        ts.len() > 0,
        forall|k: int| 0 <= k < ts.len() ==> !(#[trigger] ts[k]).contains(','),
    ensures
        split_commas(join_spec(ts, seq![','])) == ts,
    decreases ts.len(),
{
    let e = Seq::<char>::empty();
    assert(split_commas(e) == seq![e]);
    if ts.len() == 1 {
        lemma_split_append(e, ts[0]);
        assert(e + ts[0] =~= ts[0]);
        assert(seq![e].update(0, e + ts[0]) =~= ts);
    } else {
        let init = ts.drop_last();
        assert forall|k: int| 0 <= k < init.len() implies !(#[trigger] init[k]).contains(',') by {
            assert(init[k] == ts[k]);
        }
        lemma_split_join(init);
        let j = join_spec(init, seq![',']);
        let jc = j.push(',');
        assert(split_commas(jc) == init.push(e)) by {
            assert(jc.drop_last() =~= j);
            assert(jc.last() == ',');
        }
        assert(!ts.last().contains(',')) by {
            assert(ts[ts.len() - 1] == ts.last());
        }
        lemma_split_append(jc, ts.last());
        assert(join_spec(ts, seq![',']) =~= jc + ts.last());
        assert(e + ts.last() =~= ts.last());
        assert(init.push(e).update(init.len() as int, e + ts.last()) =~= ts);
    }
}

/// Parsing the comma-separated text of already parsed tags gives back the
/// same tags: parsing normalizes, and normal tags are left as they are.
pub proof fn lemma_reparsing_tags_changes_nothing(ts: Seq<Seq<char>>, again: Seq<Seq<char>>)
    requires
        strictly_sorted(ts),
        forall|k: int| 0 <= k < ts.len() ==> is_normal_tag(#[trigger] ts[k]),
        strictly_sorted(again),
        forall|t: Seq<char>| again.contains(t) <==> is_tag_of(split_commas(join_spec(ts, seq![','])), t),
    ensures
        again == ts,
{
    let pieces = split_commas(join_spec(ts, seq![',']));
    if ts.len() == 0 {
        assert(pieces == seq![Seq::<char>::empty()]);
        assert(trim_spec(Seq::<char>::empty()) =~= Seq::<char>::empty());
        assert forall|t: Seq<char>| !is_tag_of(pieces, t) by {}
    } else {
        lemma_split_join(ts);
        assert forall|k: int| 0 <= k < ts.len() implies #[trigger] piece_tag(ts[k]) == Some(ts[k]) by {
            assert(is_normal_tag(ts[k]));
        }
        assert forall|t: Seq<char>| is_tag_of(pieces, t) <==> ts.contains(t) by {
            if is_tag_of(pieces, t) {
                let k = choose|k: int| 0 <= k < pieces.len() && #[trigger] piece_tag(pieces[k]) == Some(t);
                assert(piece_tag(ts[k]) == Some(ts[k]));
            }
            if ts.contains(t) {
                let k = choose|k: int| 0 <= k < ts.len() && ts[k] == t;
                assert(piece_tag(pieces[k]) == Some(t));
            }
        }
    }
    lemma_strictly_sorted_unique(again, ts);
}

proof fn lemma_lower_char_props(c: char)
    ensures
        lower_char(lower_char(c)) == lower_char(c),
        (lower_char(c) == ',') == (c == ','),
        is_whitespace_spec(lower_char(c)) == is_whitespace_spec(c),
{
    if 'A' <= c && c <= 'Z' {
        let v = (c as u32) + 32;
        assert(0x61 <= v <= 0x7A);
        assert((v as char) as u32 == v);
    }
}

proof fn lemma_split_pieces_comma_free(s: Seq<char>)
    ensures
        forall|k: int|
            0 <= k < split_commas(s).len() ==> !(#[trigger] split_commas(s)[k]).contains(','),
    decreases s.len(),
{
    if s.len() > 0 {
        let prev = split_commas(s.drop_last());
        lemma_split_pieces_comma_free(s.drop_last());
        lemma_split_len(s.drop_last());
        if s.last() != ',' {
            let grown = prev.last().push(s.last());
            assert(!grown.contains(',')) by {
                assert(!prev[prev.len() - 1].contains(','));
                if grown.contains(',') {
                    let k = choose|k: int| 0 <= k < grown.len() && grown[k] == ',';
                    if k < prev.last().len() {
                        assert(prev.last()[k] == ',');
                    }
                }
            }
            assert forall|k: int| 0 <= k < split_commas(s).len() implies !(
            #[trigger] split_commas(s)[k]).contains(',') by {
                if k < prev.len() - 1 {
                    assert(split_commas(s)[k] == prev[k]);
                }
            }
        } else {
            assert forall|k: int| 0 <= k < split_commas(s).len() implies !(
            #[trigger] split_commas(s)[k]).contains(',') by {
                if k < prev.len() {
                    assert(split_commas(s)[k] == prev[k]);
                }
            }
        }
    }
}

proof fn lemma_trim_start_shape(s: Seq<char>)
    ensures
        exists|k: int| 0 <= k <= s.len() && trim_start_spec(s) == s.subrange(k, s.len() as int),
        trim_start_spec(s).len() > 0 ==> !is_whitespace_spec(trim_start_spec(s)[0]),
    decreases s.len(),
{
    if s.len() > 0 && is_whitespace_spec(s[0]) {
        lemma_trim_start_shape(s.drop_first());
        let k = choose|k: int|
            0 <= k <= s.drop_first().len() && trim_start_spec(s.drop_first())
                == s.drop_first().subrange(k, s.drop_first().len() as int);
        assert(s.drop_first().subrange(k, s.drop_first().len() as int) =~= s.subrange(
            k + 1,
            s.len() as int,
        ));
    } else {
        assert(s.subrange(0, s.len() as int) =~= s);
    }
}

proof fn lemma_trim_end_shape(s: Seq<char>)
    ensures
        exists|k: int| 0 <= k <= s.len() && trim_end_spec(s) == s.subrange(0, k),
        trim_end_spec(s).len() > 0 ==> !is_whitespace_spec(trim_end_spec(s).last()),
        s.len() > 0 && !is_whitespace_spec(s[0]) ==> trim_end_spec(s).len() > 0
            && trim_end_spec(s)[0] == s[0],
    decreases s.len(),
{
    if s.len() > 0 && is_whitespace_spec(s.last()) {
        lemma_trim_end_shape(s.drop_last());
        let k = choose|k: int|
            0 <= k <= s.drop_last().len() && trim_end_spec(s.drop_last())
                == s.drop_last().subrange(0, k);
        assert(s.drop_last().subrange(0, k) =~= s.subrange(0, k));
        if !is_whitespace_spec(s[0]) {
            assert(s.len() > 1);
            assert(s.drop_last()[0] == s[0]);
        }
    } else {
        assert(s.subrange(0, s.len() as int) =~= s);
    }
}

/// Every tag that parsing produces is a normal tag, so the output of
/// `parse_tags_csv` meets the requirements of
/// `lemma_reparsing_tags_changes_nothing`.
pub proof fn lemma_parsed_tags_are_normal(raw: Seq<char>, t: Seq<char>)
    requires
        is_tag_of(split_commas(raw), t),
    ensures
        is_normal_tag(t),
{
    let pieces = split_commas(raw);
    let k = choose|k: int| 0 <= k < pieces.len() && #[trigger] piece_tag(pieces[k]) == Some(t);
    let p = pieces[k];
    lemma_split_pieces_comma_free(raw);
    assert(!p.contains(','));
    let x = trim_spec(p);
    assert(t == lower_seq(x));
    lemma_trim_start_shape(p);
    let ts = trim_start_spec(p);
    lemma_trim_end_shape(ts);
    let a = choose|a: int| 0 <= a <= p.len() && ts == p.subrange(a, p.len() as int);
    let b = choose|b: int| 0 <= b <= ts.len() && x == ts.subrange(0, b);
    assert(x.len() > 0);
    assert(!is_whitespace_spec(x[0]) && !is_whitespace_spec(x.last()));
    assert(!x.contains(',')) by {
        if x.contains(',') {
            let j = choose|j: int| 0 <= j < x.len() && x[j] == ',';
            assert(x[j] == p[a + j]);
        }
    }
    assert(lower_seq(t) =~= t) by {
        assert forall|j: int| 0 <= j < t.len() implies lower_seq(t)[j] == t[j] by {
            lemma_lower_char_props(x[j]);
        }
    }
    assert(!t.contains(',')) by {
        if t.contains(',') {
            let j = choose|j: int| 0 <= j < t.len() && t[j] == ',';
            lemma_lower_char_props(x[j]);
        }
    }
    assert(trim_spec(t) == t) by {
        lemma_lower_char_props(x[0]);
        lemma_lower_char_props(x.last());
        assert(t[0] == lower_char(x[0]));
        assert(t.last() == lower_char(x.last()));
        assert(trim_start_spec(t) == t);
        assert(trim_end_spec(t) == t);
    }
}

} // verus!
