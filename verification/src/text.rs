//! Character-level helpers on strings: views as `Seq<char>`, equality,
//! substring search, ASCII lower-casing and building strings.

use vstd::prelude::*;
use vstd::string::*;

verus! {

/// `needle` occurs in `hay` as a contiguous run of characters.
pub open spec fn seq_contains(hay: Seq<char>, needle: Seq<char>) -> bool {
    exists|i: int|
        0 <= i && i + needle.len() <= hay.len() && #[trigger] hay.subrange(i, i + needle.len())
            == needle
}

/// A needle that no position of `p` can start (its first character, or the
/// character after it, differs within `p`) and that does not occur in `e`
/// does not occur in `p + e`.
pub proof fn lemma_contains_after_prefix(p: Seq<char>, e: Seq<char>, n: Seq<char>)
    requires
        n.len() >= 2,
        forall|i: int|
            0 <= i < p.len() ==> (#[trigger] p[i] != n[0] || (i + 1 < p.len() && p[i + 1]
                != n[1])),
        !seq_contains(e, n),
    ensures
        !seq_contains(p + e, n),
{
    if seq_contains(p + e, n) {
        let pe = p + e;
        let i = choose|i: int|
            0 <= i && i + n.len() <= pe.len() && #[trigger] pe.subrange(i, i + n.len()) == n;
        let w = pe.subrange(i, i + n.len());
        if i < p.len() {
            assert(w[0] == pe[i]);
            assert(w[1] == pe[i + 1]);
            assert(pe[i] == p[i]);
            if i + 1 < p.len() {
                assert(pe[i + 1] == p[i + 1]);
            }
        } else {
            let j = i - p.len();
            assert(e.subrange(j, j + n.len()) =~= w);
        }
    }
}

/// ASCII lower-casing of one character: `'A'..='Z'` map to `'a'..='z'`,
/// everything else is kept.
pub open spec fn ascii_lower(c: char) -> char {
    if 'A' <= c && c <= 'Z' {
        ((c as u32) + 32) as char
    } else {
        c
    }
}

/// ASCII lower-casing of a whole string, character by character.
pub open spec fn ascii_lower_seq(s: Seq<char>) -> Seq<char> {
    s.map_values(|c: char| ascii_lower(c))
}

/// The characters of a string slice, in order.
pub fn chars_of(s: &str) -> (v: Vec<char>)
    ensures
        v@ == s@,
{
    let n = s.unicode_len();
    let mut v: Vec<char> = Vec::new();
    let mut i: usize = 0;
    while i < n
        invariant
            n == s@.len(),
            i <= n,
            v@ == s@.subrange(0, i as int),
        decreases n - i,
    {
        let c = s.get_char(i);
        v.push(c);
        i = i + 1;
    }
    v
}

/// Character-wise equality of two character vectors.
pub fn chars_eq(a: &Vec<char>, b: &Vec<char>) -> (r: bool)
    ensures
        r == (a@ == b@),
{
    if a.len() != b.len() {
        return false;
    }
    let mut i: usize = 0;
    while i < a.len()
        invariant
            a.len() == b.len(),
            i <= a.len(),
            forall|k: int| 0 <= k < i ==> a@[k] == b@[k],
        decreases a.len() - i,
    {
        if a[i] != b[i] {
            return false;
        }
        i = i + 1;
    }
    assert(a@ =~= b@);
    true
}

/// Equality of two string slices, by their characters.
pub fn str_eq(a: &str, b: &str) -> (r: bool)
    ensures
        r == (a@ == b@),
{
    let va = chars_of(a);
    let vb = chars_of(b);
    chars_eq(&va, &vb)
}

/// Whether `needle` matches `hay` at position `at`.
fn matches_at(hay: &Vec<char>, needle: &Vec<char>, at: usize) -> (r: bool)
    requires
        at + needle.len() <= hay.len(),
    ensures
        r == (hay@.subrange(at as int, at + needle.len()) == needle@),
{
    let mut k: usize = 0;
    while k < needle.len()
        invariant
            at + needle.len() <= hay.len(),
            k <= needle.len(),
            forall|j: int| 0 <= j < k ==> hay@[at + j] == needle@[j],
        decreases needle.len() - k,
    {
        if hay[at + k] != needle[k] {
            assert(hay@.subrange(at as int, at + needle.len())[k as int] != needle@[k as int]);
            return false;
        }
        k = k + 1;
    }
    assert(hay@.subrange(at as int, at + needle.len()) =~= needle@);
    true
}

/// Substring search over characters.
pub fn chars_contain(hay: &Vec<char>, needle: &Vec<char>) -> (r: bool)
    ensures
        r == seq_contains(hay@, needle@),
{
    if needle.len() > hay.len() {
        return false;
    }
    if needle.len() == 0 {
        assert(hay@.subrange(0int, 0int + needle@.len()) =~= needle@);
        return true;
    }
    let last = hay.len() - needle.len();
    let mut i: usize = 0;
    while i <= last
        invariant
            last + needle.len() == hay.len(),
            needle.len() > 0,
            i <= last + 1,
            forall|j: int|
                0 <= j < i ==> #[trigger] hay@.subrange(j, j + needle.len()) != needle@,
        decreases last + 1 - i,
    {
        if matches_at(hay, needle, i) {
            return true;
        }
        i = i + 1;
    }
    false
}

/// Substring search on string slices.
pub fn str_contains(hay: &str, needle: &str) -> (r: bool)
    ensures
        r == seq_contains(hay@, needle@),
{
    let h = chars_of(hay);
    let n = chars_of(needle);
    chars_contain(&h, &n)
}

/// ASCII lower-casing of one character.
pub fn to_ascii_lower(c: char) -> (r: char)
    ensures
        r == ascii_lower(c),
{
    if 'A' <= c && c <= 'Z' {
        let b: u8 = c as u8;
        assert(b == c as u32);
        let lower: u8 = b + 32;
        lower as char
    } else {
        c
    }
}

/// ASCII lower-casing of a character vector.
pub fn chars_to_ascii_lower(s: &Vec<char>) -> (r: Vec<char>)
    ensures
        r@ == ascii_lower_seq(s@),
{
    let mut r: Vec<char> = Vec::new();
    let mut i: usize = 0;
    while i < s.len()
        invariant
            i <= s.len(),
            r@ == ascii_lower_seq(s@.subrange(0, i as int)),
        decreases s.len() - i,
    {
        r.push(to_ascii_lower(s[i]));
        assert(ascii_lower_seq(s@.subrange(0, i + 1)) =~= ascii_lower_seq(
            s@.subrange(0, i as int),
        ).push(ascii_lower(s@[i as int])));
        i = i + 1;
    }
    assert(s@.subrange(0, s.len() as int) =~= s@);
    r
}

/// A string that holds `s` followed by `t`.
pub fn concat_str(s: &str, t: &str) -> (r: String)
    ensures
        r@ == s@ + t@,
{
    let mut r = String::from_str(s);
    r.append(t);
    r
}

/// Calls `String::push`; claims that the string afterwards is the old one
/// followed by the character.
#[verifier::external_body]
pub(crate) fn push_char(s: &mut String, c: char)
    ensures
        final(s)@ == old(s)@.push(c),
{
    s.push(c);
}

/// Unicode `White_Space`: the characters that `char::is_whitespace` accepts.
pub open spec fn is_white_space(c: char) -> bool {
    let u = c as u32;
    ||| 0x09 <= u <= 0x0D
    ||| u == 0x20
    ||| u == 0x85
    ||| u == 0xA0
    ||| u == 0x1680
    ||| 0x2000 <= u <= 0x200A
    ||| u == 0x2028
    ||| u == 0x2029
    ||| u == 0x202F
    ||| u == 0x205F
    ||| u == 0x3000
}

/// `s` without its leading white space.
pub open spec fn trim_start_seq(s: Seq<char>) -> Seq<char>
    decreases s.len(),
{
    if s.len() > 0 && is_white_space(s[0]) {
        trim_start_seq(s.drop_first())
    } else {
        s
    }
}

/// `s` without its trailing white space.
pub open spec fn trim_end_seq(s: Seq<char>) -> Seq<char>
    decreases s.len(),
{
    if s.len() > 0 && is_white_space(s.last()) {
        trim_end_seq(s.drop_last())
    } else {
        s
    }
}

/// `s` without leading and trailing white space, as `str::trim` gives it.
pub open spec fn trim_seq(s: Seq<char>) -> Seq<char> {
    trim_end_seq(trim_start_seq(s))
}

/// Whether a character is white space.
pub fn is_whitespace_char(c: char) -> (r: bool)
    ensures
        r == is_white_space(c),
{
    let u: u32 = c as u32;
    (0x09 <= u && u <= 0x0D) || u == 0x20 || u == 0x85 || u == 0xA0 || u == 0x1680 || (0x2000
        <= u && u <= 0x200A) || u == 0x2028 || u == 0x2029 || u == 0x202F || u == 0x205F || u
        == 0x3000
}

/// A character vector without its leading and trailing white space.
pub fn trim_chars(v: &Vec<char>) -> (r: Vec<char>)
    ensures
        r@ == trim_seq(v@),
{
    let n = v.len();
    let mut i: usize = 0;
    assert(v@.subrange(0, n as int) =~= v@);
    while i < n && is_whitespace_char(v[i])
        invariant
            n == v@.len(),
            i <= n,
            trim_start_seq(v@) == trim_start_seq(v@.subrange(i as int, n as int)),
        decreases n - i,
    {
        assert(v@.subrange(i as int, n as int).drop_first() =~= v@.subrange(i + 1, n as int));
        i = i + 1;
    }
    assert(trim_start_seq(v@) == v@.subrange(i as int, n as int));
    let mut j: usize = n;
    while j > i && is_whitespace_char(v[j - 1])
        invariant
            n == v@.len(),
            i <= j <= n,
            trim_end_seq(v@.subrange(i as int, n as int)) == trim_end_seq(
                v@.subrange(i as int, j as int),
            ),
        decreases j - i,
    {
        assert(v@.subrange(i as int, j as int).drop_last() =~= v@.subrange(i as int, j - 1));
        j = j - 1;
    }
    assert(trim_end_seq(v@.subrange(i as int, j as int)) == v@.subrange(i as int, j as int));
    sub_chars(v, i, j)
}

/// A string slice without its leading and trailing white space.
pub fn trim(s: &str) -> (r: String)
    ensures
        r@ == trim_seq(s@),
{
    let v = trim_chars(&chars_of(s));
    string_of_chars(&v)
}

/// The trimmed string neither starts nor ends with white space.
pub proof fn lemma_trim_has_no_outer_white_space(s: Seq<char>)
    ensures
        trim_seq(s).len() > 0 ==> !is_white_space(trim_seq(s)[0]) && !is_white_space(
            trim_seq(s).last(),
        ),
{
    lemma_trim_start_no_leading(s);
    lemma_trim_end_keeps_first(trim_start_seq(s));
    lemma_trim_end_no_trailing(trim_start_seq(s));
}

proof fn lemma_trim_start_no_leading(s: Seq<char>)
    ensures
        trim_start_seq(s).len() > 0 ==> !is_white_space(trim_start_seq(s)[0]),
    decreases s.len(),
{
    if s.len() > 0 && is_white_space(s[0]) {
        lemma_trim_start_no_leading(s.drop_first());
    }
}

proof fn lemma_trim_end_no_trailing(s: Seq<char>)
    ensures
        trim_end_seq(s).len() > 0 ==> !is_white_space(trim_end_seq(s).last()),
    decreases s.len(),
{
    if s.len() > 0 && is_white_space(s.last()) {
        lemma_trim_end_no_trailing(s.drop_last());
    }
}

/// Trimming the end of a sequence that does not start with white space keeps
/// its first character (when anything is left).
proof fn lemma_trim_end_keeps_first(s: Seq<char>)
    ensures
        trim_end_seq(s).len() <= s.len(),
        trim_end_seq(s) == s.subrange(0, trim_end_seq(s).len() as int),
    decreases s.len(),
{
    if s.len() > 0 && is_white_space(s.last()) {
        lemma_trim_end_keeps_first(s.drop_last());
        assert(s.drop_last().subrange(0, trim_end_seq(s).len() as int) =~= s.subrange(
            0,
            trim_end_seq(s).len() as int,
        ));
    } else {
        assert(s.subrange(0, s.len() as int) =~= s);
    }
}

/// The characters of `v` from `from` up to (not including) `to`.
pub fn sub_chars(v: &Vec<char>, from: usize, to: usize) -> (r: Vec<char>)
    requires
        from <= to <= v.len(),
    ensures
        r@ == v@.subrange(from as int, to as int),
{
    let mut r: Vec<char> = Vec::new();
    let mut k: usize = from;
    while k < to
        invariant
            from <= k <= to <= v.len(),
            r@ == v@.subrange(from as int, k as int),
        decreases to - k,
    {
        r.push(v[k]);
        assert(v@.subrange(from as int, k + 1) =~= v@.subrange(from as int, k as int).push(
            v@[k as int],
        ));
        k = k + 1;
    }
    r
}

/// A string made of the given characters.
pub fn string_of_chars(v: &Vec<char>) -> (r: String)
    ensures
        r@ == v@,
{
    let mut r = String::new();
    let mut k: usize = 0;
    while k < v.len()
        invariant
            k <= v.len(),
            r@ == v@.subrange(0, k as int),
        decreases v.len() - k,
    {
        push_char(&mut r, v[k]);
        assert(v@.subrange(0, k + 1) =~= v@.subrange(0, k as int).push(v@[k as int]));
        k = k + 1;
    }
    assert(v@.subrange(0, v.len() as int) =~= v@);
    r
}

/// The position of the first `c` in `s` at or after `k`, or the length of
/// `s` when there is none.
pub open spec fn index_of_from(s: Seq<char>, c: char, k: int) -> int
    decreases s.len() - k,
{
    if k >= s.len() {
        s.len() as int
    } else if s[k] == c {
        k
    } else {
        index_of_from(s, c, k + 1)
    }
}

/// The position found lies between the start and the end, holds `c` unless
/// it is the end, and nothing before it from the start is `c`.
pub proof fn lemma_index_of_from(s: Seq<char>, c: char, k: int)
    requires
        0 <= k <= s.len(),
    ensures
        k <= index_of_from(s, c, k) <= s.len(),
        index_of_from(s, c, k) < s.len() ==> s[index_of_from(s, c, k)] == c,
        forall|j: int| k <= j < index_of_from(s, c, k) ==> s[j] != c,
    decreases s.len() - k,
{
    if k < s.len() && s[k] != c {
        lemma_index_of_from(s, c, k + 1);
    }
}

/// Finds the first `c` in `v` at or after `k`.
pub fn index_of_from_exec(v: &Vec<char>, c: char, k: usize) -> (r: usize)
    requires
        k <= v.len(),
    ensures
        r == index_of_from(v@, c, k as int),
{
    let mut j: usize = k;
    while j < v.len() && v[j] != c
        invariant
            k <= j <= v.len(),
            index_of_from(v@, c, k as int) == index_of_from(v@, c, j as int),
        decreases v.len() - j,
    {
        j = j + 1;
    }
    j
}

/// The white space that trimming removes is exactly Unicode `White_Space`,
/// as `char::is_whitespace` gives it: tab, line feed, vertical tab, form
/// feed, carriage return, space, next line, no-break space, ogham space
/// mark, the spaces U+2000 to U+200A, line and paragraph separators, narrow
/// no-break space, medium mathematical space and ideographic space.
pub proof fn lemma_white_space_is_unicode_white_space(c: char)
    ensures
        is_white_space(c) <==> (c == '\t' || c == '\n' || c == '\x0B' || c == '\x0C' || c
            == '\r' || c == ' ' || c == '\u{85}' || c == '\u{A0}' || c == '\u{1680}' || ('\u{2000}'
            <= c && c <= '\u{200A}') || c == '\u{2028}' || c == '\u{2029}' || c == '\u{202F}'
            || c == '\u{205F}' || c == '\u{3000}'),
{
}

/// Trimming removes only white space, from both ends, and leaves neither a
/// leading nor a trailing white-space character (carriage returns, line
/// feeds, tabs and the other `White_Space` characters included): the
/// trimmed text is an infix of the input with only white space around it.
pub proof fn lemma_trim_is_infix(s: Seq<char>)
    ensures
        exists|a: int, b: int|
            0 <= a <= b <= s.len() && #[trigger] s.subrange(a, b) == trim_seq(s) && (forall|k: int|
                0 <= k < a ==> is_white_space(s[k])) && (forall|k: int|
                b <= k < s.len() ==> is_white_space(s[k])),
        trim_seq(s).len() > 0 ==> {
            let t = trim_seq(s);
            &&& t[0] != '\r' && t[0] != '\n' && t[0] != '\t' && t[0] != ' '
            &&& t.last() != '\r' && t.last() != '\n' && t.last() != '\t' && t.last() != ' '
        },
{
    lemma_trim_has_no_outer_white_space(s);
    let (a, ts) = lemma_trim_start_split(s);
    let b = lemma_trim_end_split(ts);
    assert(s.subrange(a, a + b) =~= ts.subrange(0, b));
    assert forall|k: int| a + b <= k < s.len() implies is_white_space(s[k]) by {
        assert(s[k] == ts[k - a]);
    }
    assert(s.subrange(a, a + b) == trim_seq(s));
}

/// Trimming the start drops a prefix made only of white space.
proof fn lemma_trim_start_split(s: Seq<char>) -> (r: (int, Seq<char>))
    ensures
        0 <= r.0 <= s.len(),
        r.1 == trim_start_seq(s),
        r.1 == s.subrange(r.0, s.len() as int),
        forall|k: int| 0 <= k < r.0 ==> is_white_space(s[k]),
    decreases s.len(),
{
    if s.len() > 0 && is_white_space(s[0]) {
        let (a, t) = lemma_trim_start_split(s.drop_first());
        assert(s.drop_first().subrange(a, s.len() - 1) =~= s.subrange(a + 1, s.len() as int));
        assert forall|k: int| 0 <= k < a + 1 implies is_white_space(s[k]) by {
            if k > 0 {
                assert(s[k] == s.drop_first()[k - 1]);
            }
        }
        (a + 1, t)
    } else {
        assert(s.subrange(0, s.len() as int) =~= s);
        (0, s)
    }
}

/// Trimming the end keeps a prefix, and drops only white space.
proof fn lemma_trim_end_split(s: Seq<char>) -> (b: int)
    ensures
        0 <= b <= s.len(),
        trim_end_seq(s) == s.subrange(0, b),
        forall|k: int| b <= k < s.len() ==> is_white_space(s[k]),
    decreases s.len(),
{
    if s.len() > 0 && is_white_space(s.last()) {
        let b = lemma_trim_end_split(s.drop_last());
        assert(s.drop_last().subrange(0, b) =~= s.subrange(0, b));
        assert forall|k: int| b <= k < s.len() implies is_white_space(s[k]) by {
            if k < s.len() - 1 {
                assert(s[k] == s.drop_last()[k]);
            }
        }
        b
    } else {
        assert(s.subrange(0, s.len() as int) =~= s);
        s.len() as int
    }
}

} // verus!
