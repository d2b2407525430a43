//! Character classification, trimming and ASCII case helpers over strings.
use vstd::prelude::*;

verus! {

/// `c` is an ASCII upper-case letter.
pub open spec fn is_upper_spec(c: char) -> bool {
    'A' <= c && c <= 'Z'
}

/// `c` is an ASCII lower-case letter.
pub open spec fn is_lower_spec(c: char) -> bool {
    'a' <= c && c <= 'z'
}

/// `c` is an ASCII decimal digit.
pub open spec fn is_digit_spec(c: char) -> bool {
    '0' <= c && c <= '9'
}

/// `c` is an ASCII letter or digit.
pub open spec fn is_alnum_spec(c: char) -> bool {
    is_upper_spec(c) || is_lower_spec(c) || is_digit_spec(c)
}

/// `c` is an ASCII hexadecimal digit.
pub open spec fn is_hex_spec(c: char) -> bool {
    is_digit_spec(c) || ('a' <= c && c <= 'f') || ('A' <= c && c <= 'F')
}

/// `c` belongs to the Unicode general category of control codes (Cc).
pub open spec fn is_control_spec(c: char) -> bool {
    (c as u32) <= 0x1F || (0x7F <= (c as u32) && (c as u32) <= 0x9F)
}

/// `c` has the Unicode `White_Space` property.
pub open spec fn is_whitespace_spec(c: char) -> bool {
    let v = c as u32;
    ||| 0x09 <= v && v <= 0x0D
    ||| v == 0x20
    ||| v == 0x85
    ||| v == 0xA0
    ||| v == 0x1680
    ||| 0x2000 <= v && v <= 0x200A
    ||| v == 0x2028
    ||| v == 0x2029
    ||| v == 0x202F
    ||| v == 0x205F
    ||| v == 0x3000
}

/// ASCII lower-casing of one character; other characters are kept.
pub open spec fn lower_char(c: char) -> char {
    if is_upper_spec(c) {
        ((c as u32) + 32) as char
    } else {
        c
    }
}

/// ASCII upper-casing of one character; other characters are kept.
pub open spec fn upper_char(c: char) -> char {
    if is_lower_spec(c) {
        ((c as u32) - 32) as char
    } else {
        c
    }
}

/// ASCII lower-casing of every character of `s`.
pub open spec fn lower_seq(s: Seq<char>) -> Seq<char> {
    s.map_values(|c: char| lower_char(c))
}

/// ASCII upper-casing of every character of `s`.
pub open spec fn upper_seq(s: Seq<char>) -> Seq<char> {
    s.map_values(|c: char| upper_char(c))
}

/// `a` and `b` are equal when ASCII letters are compared without case.
pub open spec fn eq_ignore_case_spec(a: Seq<char>, b: Seq<char>) -> bool {
    lower_seq(a) == lower_seq(b)
}

/// `s` without its leading white space.
pub open spec fn trim_start_spec(s: Seq<char>) -> Seq<char>
    decreases s.len(),
{
    if s.len() > 0 && is_whitespace_spec(s[0]) {
        trim_start_spec(s.drop_first())
    } else {
        s
    }
}

/// `s` without its trailing white space.
pub open spec fn trim_end_spec(s: Seq<char>) -> Seq<char>
    decreases s.len(),
{
    if s.len() > 0 && is_whitespace_spec(s.last()) {
        trim_end_spec(s.drop_last())
    } else {
        s
    }
}

/// `s` without leading and trailing white space.
pub open spec fn trim_spec(s: Seq<char>) -> Seq<char> {
    trim_end_spec(trim_start_spec(s))
}

/// `s` without any of its leading `'#'` characters.
pub open spec fn strip_hashes_spec(s: Seq<char>) -> Seq<char>
    decreases s.len(),
{
    if s.len() > 0 && s[0] == '#' {
        strip_hashes_spec(s.drop_first())
    } else {
        s
    }
}

/// `needle` occurs in `hay` starting at index `i`.
pub open spec fn occurs_at(hay: Seq<char>, needle: Seq<char>, i: int) -> bool {
    0 <= i && i + needle.len() <= hay.len() && hay.subrange(i, i + needle.len()) == needle
}

/// `needle` occurs as a contiguous part of `hay`.
pub open spec fn contains_spec(hay: Seq<char>, needle: Seq<char>) -> bool {
    exists|i: int| #[trigger] occurs_at(hay, needle, i)
}

/// Appends one character to a string.
///
/// Trusted: calls `String::push`, which std documents as appending the
/// character to the end of the string.
#[verifier::external_body]
pub(crate) fn push_char(s: &mut String, c: char)
    ensures
        final(s)@ == old(s)@.push(c),
{
    s.push(c);
}

/// Converts an ASCII code below 0x80 to its character.
pub fn char_from_ascii_code(v: u32) -> (r: char)
    requires
        v < 0x80,
    ensures
        r == v as char,
        r as u32 == v,
{
    let b: u8 = v as u8;
    b as char
}

/// Lower-case ASCII letter of a character; other characters are kept.
pub fn to_ascii_lowercase_char(c: char) -> (r: char)
    ensures
        r == lower_char(c),
{
    if 'A' <= c && c <= 'Z' {
        char_from_ascii_code((c as u32) + 32)
    } else {
        c
    }
}

/// Upper-case ASCII letter of a character; other characters are kept.
pub fn to_ascii_uppercase_char(c: char) -> (r: char)
    ensures
        r == upper_char(c),
{
    if 'a' <= c && c <= 'z' {
        char_from_ascii_code((c as u32) - 32)
    } else {
        c
    }
}

/// Whether `c` is an ASCII hexadecimal digit.
pub fn is_ascii_hexdigit(c: char) -> (r: bool)
    ensures
        r == is_hex_spec(c),
{
    ('0' <= c && c <= '9') || ('a' <= c && c <= 'f') || ('A' <= c && c <= 'F')
}

/// Whether `c` is an ASCII letter or digit.
pub fn is_ascii_alphanumeric(c: char) -> (r: bool)
    ensures
        r == is_alnum_spec(c),
{
    ('0' <= c && c <= '9') || ('a' <= c && c <= 'z') || ('A' <= c && c <= 'Z')
}

/// Whether `c` is a control code (general category Cc).
pub fn is_control(c: char) -> (r: bool)
    ensures
        r == is_control_spec(c),
{
    let v = c as u32;
    v <= 0x1F || (0x7F <= v && v <= 0x9F)
}

/// Whether `c` is Unicode white space.
pub fn is_whitespace(c: char) -> (r: bool)
    ensures
        r == is_whitespace_spec(c),
{
    let v = c as u32;
    (0x09 <= v && v <= 0x0D) || v == 0x20 || v == 0x85 || v == 0xA0 || v == 0x1680 || (0x2000 <= v
        && v <= 0x200A) || v == 0x2028 || v == 0x2029 || v == 0x202F || v == 0x205F || v == 0x3000
}

proof fn lemma_trim_start_skip(s: Seq<char>, i: int)
    requires
        0 <= i <= s.len(),
        forall|j: int| 0 <= j < i ==> is_whitespace_spec(s[j]),
    ensures
        trim_start_spec(s) == trim_start_spec(s.subrange(i, s.len() as int)),
    decreases i,
{
    if i > 0 {
        lemma_trim_start_skip(s.drop_first(), i - 1);
        assert(s.drop_first().subrange(i - 1, s.drop_first().len() as int) =~= s.subrange(
            i,
            s.len() as int,
        ));
    } else {
        assert(s.subrange(0, s.len() as int) =~= s);
    }
}

proof fn lemma_trim_end_skip(s: Seq<char>, e: int)
    requires
        0 <= e <= s.len(),
        forall|j: int| e <= j < s.len() ==> is_whitespace_spec(s[j]),
    ensures
        trim_end_spec(s) == trim_end_spec(s.subrange(0, e)),
    decreases s.len() - e,
{
    if e < s.len() {
        lemma_trim_end_skip(s.drop_last(), e);
        assert(s.drop_last().subrange(0, e) =~= s.subrange(0, e));
    } else {
        assert(s.subrange(0, e) =~= s);
    }
}

proof fn lemma_strip_hashes_skip(s: Seq<char>, i: int)
    requires
        0 <= i <= s.len(),
        forall|j: int| 0 <= j < i ==> s[j] == '#',
    ensures
        strip_hashes_spec(s) == strip_hashes_spec(s.subrange(i, s.len() as int)),
    decreases i,
{
    if i > 0 {
        lemma_strip_hashes_skip(s.drop_first(), i - 1);
        assert(s.drop_first().subrange(i - 1, s.drop_first().len() as int) =~= s.subrange(
            i,
            s.len() as int,
        ));
    } else {
        assert(s.subrange(0, s.len() as int) =~= s);
    }
}

/// `s` without leading and trailing Unicode white space.
pub fn trim(s: &str) -> (r: &str)
    ensures
        r@ == trim_spec(s@),
{
    let n = s.unicode_len();
    let mut start: usize = 0;
    while start < n && is_whitespace(s.get_char(start))
        invariant
            n == s@.len(),
            start <= n,
            forall|j: int| 0 <= j < start ==> is_whitespace_spec(s@[j]),
        decreases n - start,
    {
        start = start + 1;
    }
    let ghost rest = s@.subrange(start as int, n as int);
    proof {
        lemma_trim_start_skip(s@, start as int);
        assert(rest.len() == 0 || !is_whitespace_spec(rest[0]));
        assert(trim_start_spec(rest) == rest);
    }
    let mut end: usize = n;
    while end > start && is_whitespace(s.get_char(end - 1))
        invariant
            n == s@.len(),
            start <= end <= n,
            forall|j: int| end <= j < n ==> is_whitespace_spec(s@[j]),
        decreases end,
    {
        end = end - 1;
    }
    proof {
        let len = rest.len() as int;
        let e = end - start;
        assert forall|j: int| e <= j < len implies is_whitespace_spec(rest[j]) by {
            assert(rest[j] == s@[j + start]);
        }
        lemma_trim_end_skip(rest, e);
        let r = rest.subrange(0, e);
        assert(r =~= s@.subrange(start as int, end as int));
        assert(r.len() == 0 || !is_whitespace_spec(r.last()));
        assert(trim_end_spec(r) == r);
    }
    s.substring_char(start, end)
}

/// `s` without any of its leading `'#'` characters.
pub fn strip_leading_hashes(s: &str) -> (r: &str)
    ensures
        r@ == strip_hashes_spec(s@),
{
    let n = s.unicode_len();
    let mut start: usize = 0;
    while start < n && s.get_char(start) == '#'
        invariant
            n == s@.len(),
            start <= n,
            forall|j: int| 0 <= j < start ==> s@[j] == '#',
        decreases n - start,
    {
        start = start + 1;
    }
    proof {
        lemma_strip_hashes_skip(s@, start as int);
        let rest = s@.subrange(start as int, n as int);
        assert(rest.len() == 0 || rest[0] != '#');
        assert(strip_hashes_spec(rest) == rest);
    }
    s.substring_char(start, n)
}

/// ASCII lower-cased copy of `s`.
pub fn to_ascii_lowercase(s: &str) -> (r: String)
    ensures
        r@ == lower_seq(s@),
{
    let n = s.unicode_len();
    let mut out = String::new();
    let mut i: usize = 0;
    while i < n
        invariant
            n == s@.len(),
            i <= n,
            out@ =~= lower_seq(s@.subrange(0, i as int)),
        decreases n - i,
    {
        let c = to_ascii_lowercase_char(s.get_char(i));
        push_char(&mut out, c);
        i = i + 1;
        assert(lower_seq(s@.subrange(0, i as int)) =~= lower_seq(s@.subrange(0, i - 1)).push(
            lower_char(s@[i - 1]),
        ));
    }
    assert(s@.subrange(0, n as int) =~= s@);
    out
}

/// ASCII upper-cased copy of `s`.
pub fn to_ascii_uppercase(s: &str) -> (r: String)
    ensures
        r@ == upper_seq(s@),
{
    let n = s.unicode_len();
    let mut out = String::new();
    let mut i: usize = 0;
    while i < n
        invariant
            n == s@.len(),
            i <= n,
            out@ =~= upper_seq(s@.subrange(0, i as int)),
        decreases n - i,
    {
        let c = to_ascii_uppercase_char(s.get_char(i));
        push_char(&mut out, c);
        i = i + 1;
        assert(upper_seq(s@.subrange(0, i as int)) =~= upper_seq(s@.subrange(0, i - 1)).push(
            upper_char(s@[i - 1]),
        ));
    }
    assert(s@.subrange(0, n as int) =~= s@);
    out
}

/// Whether `a` and `b` are equal when ASCII letters are compared without case.
pub fn eq_ignore_ascii_case(a: &str, b: &str) -> (r: bool)
    ensures
        r == eq_ignore_case_spec(a@, b@),
{
    let n = a.unicode_len();
    let m = b.unicode_len();
    if n != m {
        assert(lower_seq(a@).len() != lower_seq(b@).len());
        return false;
    }
    let mut i: usize = 0;
    while i < n
        invariant
            n == a@.len(),
            m == b@.len(),
            n == m,
            i <= n,
            forall|j: int| 0 <= j < i ==> lower_char(a@[j]) == lower_char(b@[j]),
        decreases n - i,
    {
        let x = to_ascii_lowercase_char(a.get_char(i));
        let y = to_ascii_lowercase_char(b.get_char(i));
        if x != y {
            assert(lower_seq(a@)[i as int] != lower_seq(b@)[i as int]);
            return false;
        }
        i = i + 1;
    }
    assert(lower_seq(a@) =~= lower_seq(b@));
    true
}

/// Whether the characters of `a` and `b` are equal.
pub fn str_eq(a: &str, b: &str) -> (r: bool)
    ensures
        r == (a@ == b@),
{
    let n = a.unicode_len();
    let m = b.unicode_len();
    if n != m {
        return false;
    }
    let mut i: usize = 0;
    while i < n
        invariant
            n == a@.len(),
            m == b@.len(),
            n == m,
            i <= n,
            forall|j: int| 0 <= j < i ==> a@[j] == b@[j],
        decreases n - i,
    {
        if a.get_char(i) != b.get_char(i) {
            return false;
        }
        i = i + 1;
    }
    assert(a@ =~= b@);
    true
}

/// Whether `needle` occurs as a contiguous part of `hay`.
pub fn contains(hay: &str, needle: &str) -> (r: bool)
    ensures
        r == contains_spec(hay@, needle@),
{
    let n = hay.unicode_len();
    let m = needle.unicode_len();
    if m > n {
        assert forall|p: int| !occurs_at(hay@, needle@, p) by {}
        return false;
    }
    let last = n - m;
    let mut i: usize = 0;
    loop
        invariant
            n == hay@.len(),
            m == needle@.len(),
            m <= n,
            last == n - m,
            i <= last,
            forall|p: int| 0 <= p < i ==> !#[trigger] occurs_at(hay@, needle@, p),
        decreases last - i,
    {
        let mut j: usize = 0;
        let mut ok = true;
        while j < m
            invariant
                n == hay@.len(),
                m == needle@.len(),
                i + m <= n,
                j <= m,
                ok ==> forall|q: int| 0 <= q < j ==> hay@[i + q] == needle@[q],
                !ok ==> hay@.subrange(i as int, i + m) != needle@,
            decreases m - j,
        {
            if ok && hay.get_char(i + j) != needle.get_char(j) {
                ok = false;
                assert(hay@.subrange(i as int, i + m)[j as int] != needle@[j as int]);
            }
            j = j + 1;
        }
        if ok {
            assert(hay@.subrange(i as int, i + m) =~= needle@);
            assert(occurs_at(hay@, needle@, i as int));
            return true;
        }
        if i == last {
            assert forall|p: int| !occurs_at(hay@, needle@, p) by {
                if 0 <= p && p + m <= n && p != i {
                    assert(p < i);
                }
            }
            return false;
        }
        i = i + 1;
    }
}

/// Whether `s` starts with `prefix`.
pub fn starts_with(s: &str, prefix: &str) -> (r: bool)
    ensures
        r == (prefix@.len() <= s@.len() && s@.subrange(0, prefix@.len() as int) == prefix@),
{
    let n = s.unicode_len();
    let m = prefix.unicode_len();
    if m > n {
        return false;
    }
    let mut j: usize = 0;
    while j < m
        invariant
            n == s@.len(),
            m == prefix@.len(),
            m <= n,
            j <= m,
            forall|q: int| 0 <= q < j ==> s@[q] == prefix@[q],
        decreases m - j,
    {
        if s.get_char(j) != prefix.get_char(j) {
            assert(s@.subrange(0, m as int)[j as int] != prefix@[j as int]);
            return false;
        }
        j = j + 1;
    }
    assert(s@.subrange(0, m as int) =~= prefix@);
    true
}

} // verus!
