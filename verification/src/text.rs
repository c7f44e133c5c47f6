//! Character-level text normalisation shared by the domain validators.
//!
//! Every exec function here works on the sequence of `char`s of a string and
//! is specified by a spec function over `Seq<char>`.
use vstd::prelude::*;

verus! {

/// Unicode `White_Space` property, the set that `char::is_whitespace`,
/// `str::trim` and `str::split_whitespace` use.
pub open spec fn is_white_space(c: char) -> bool {
    let u = c as u32;
    ||| 0x9 <= u <= 0xd
    ||| u == 0x20
    ||| u == 0x85
    ||| u == 0xa0
    ||| u == 0x1680
    ||| 0x2000 <= u <= 0x200a
    ||| u == 0x2028
    ||| u == 0x2029
    ||| u == 0x202f
    ||| u == 0x205f
    ||| u == 0x3000
}

pub open spec fn is_ascii_upper(c: char) -> bool {
    'A' <= c <= 'Z'
}

pub open spec fn is_ascii_lower(c: char) -> bool {
    'a' <= c <= 'z'
}

pub open spec fn is_ascii_digit(c: char) -> bool {
    '0' <= c <= '9'
}

pub open spec fn is_ascii_alphanumeric(c: char) -> bool {
    is_ascii_upper(c) || is_ascii_lower(c) || is_ascii_digit(c)
}

pub open spec fn is_ascii_hexdigit(c: char) -> bool {
    is_ascii_digit(c) || ('a' <= c <= 'f') || ('A' <= c <= 'F')
}

/// `char::to_ascii_lowercase`.
pub open spec fn ascii_lower(c: char) -> char {
    if is_ascii_upper(c) {
        ((c as u32) + 32) as char
    } else {
        c
    }
}

/// `char::to_ascii_uppercase`.
pub open spec fn ascii_upper(c: char) -> char {
    if is_ascii_lower(c) {
        ((c as u32) - 32) as char
    } else {
        c
    }
}

/// `str::to_ascii_uppercase`, character by character.
pub open spec fn upper_seq(s: Seq<char>) -> Seq<char> {
    s.map_values(|c: char| ascii_upper(c))
}

/// `str::to_ascii_lowercase`, character by character.
pub open spec fn lower_seq(s: Seq<char>) -> Seq<char> {
    s.map_values(|c: char| ascii_lower(c))
}

/// Number of bytes of the UTF-8 encoding of `c` (`char::len_utf8`).
pub open spec fn char_utf8_width(c: char) -> nat {
    let u = c as u32;
    if u < 0x80 {
        1
    } else if u < 0x800 {
        2
    } else if u < 0x10000 {
        3
    } else {
        4
    }
}

/// Number of bytes of the UTF-8 encoding of `s` (what `str::len` returns).
pub open spec fn utf8_len(s: Seq<char>) -> nat
    decreases s.len(),
{
    if s.len() == 0 {
        0
    } else {
        char_utf8_width(s[0]) + utf8_len(s.drop_first())
    }
}

/// Removes the leading characters that satisfy `p` (`trim_start_matches`).
pub open spec fn drop_leading(s: Seq<char>, p: spec_fn(char) -> bool) -> Seq<char>
    decreases s.len(),
{
    if s.len() > 0 && p(s[0]) {
        drop_leading(s.drop_first(), p)
    } else {
        s
    }
}

/// Removes the trailing characters that satisfy `p` (`trim_end_matches`).
pub open spec fn drop_trailing(s: Seq<char>, p: spec_fn(char) -> bool) -> Seq<char>
    decreases s.len(),
{
    if s.len() > 0 && p(s.last()) {
        drop_trailing(s.drop_last(), p)
    } else {
        s
    }
}

/// `str::trim`: leading and trailing white space removed.
pub open spec fn trim_seq(s: Seq<char>) -> Seq<char> {
    drop_trailing(drop_leading(s, |c: char| is_white_space(c)), |c: char| is_white_space(c))
}

/// `split_whitespace().collect::<Vec<_>>().join(" ")`: the words of `s`
/// separated by one space. A non-space character is kept; a single space is
/// written before it when it follows white space and a word was already
/// written.
pub open spec fn collapse_ws(s: Seq<char>) -> Seq<char>
    decreases s.len(),
{
    if s.len() == 0 {
        seq![]
    } else {
        let p = collapse_ws(s.drop_last());
        let c = s.last();
        if is_white_space(c) {
            p
        } else if p.len() > 0 && is_white_space(s[s.len() - 2]) {
            p.push(' ').push(c)
        } else {
            p.push(c)
        }
    }
}

/// `s` starts with `prefix`.
pub open spec fn starts_with(s: Seq<char>, prefix: Seq<char>) -> bool {
    prefix.is_prefix_of(s)
}

/// `s` ends with `suffix`.
pub open spec fn ends_with(s: Seq<char>, suffix: Seq<char>) -> bool {
    suffix.is_suffix_of(s)
}

pub fn is_whitespace(c: char) -> (r: bool)
    ensures
        r == is_white_space(c),
{
    let u = c as u32;
    (0x9 <= u && u <= 0xd) || u == 0x20 || u == 0x85 || u == 0xa0 || u == 0x1680 || (0x2000 <= u
        && u <= 0x200a) || u == 0x2028 || u == 0x2029 || u == 0x202f || u == 0x205f || u == 0x3000
}

pub fn is_ascii_alphanumeric_char(c: char) -> (r: bool)
    ensures
        r == is_ascii_alphanumeric(c),
{
    ('A' <= c && c <= 'Z') || ('a' <= c && c <= 'z') || ('0' <= c && c <= '9')
}

pub fn ascii_lower_char(c: char) -> (r: char)
    ensures
        r == ascii_lower(c),
{
    if 'A' <= c && c <= 'Z' {
        let u = (c as u8) + 32;
        u as char
    } else {
        c
    }
}

pub fn ascii_upper_char(c: char) -> (r: char)
    ensures
        r == ascii_upper(c),
{
    if 'a' <= c && c <= 'z' {
        let u = (c as u8) - 32;
        u as char
    } else {
        c
    }
}

/// Appends `c` to `s` (`String::push`).
#[verifier::external_body]
fn push_char(s: &mut String, c: char)
    ensures
        final(s)@ == old(s)@.push(c),
{
    s.push(c);
}

/// The characters of `s`, in order.
pub fn chars_of(s: &str) -> (v: Vec<char>)
    ensures
        v@ == s@,
{
    let mut v: Vec<char> = Vec::new();
    for c in it: s.chars()
        invariant
            v@ == it.seq().take(it.index() as int),
    {
        v.push(c);
    }
    v
}

/// The string made of the characters of `v`.
pub fn string_of(v: &Vec<char>) -> (s: String)
    ensures
        s@ == v@,
{
    let mut s = String::new();
    let mut i: usize = 0;
    while i < v.len()
        invariant
            i <= v.len(),
            s@ == v@.take(i as int),
        decreases v.len() - i,
    {
        push_char(&mut s, v[i]);
        assert(v@.take(i as int).push(v@[i as int]) =~= v@.take(i as int + 1));
        i += 1;
    }
    assert(v@.take(v.len() as int) =~= v@);
    s
}

/// Appends the characters of `s` to `v`.
pub fn push_str(v: &mut Vec<char>, s: &str)
    ensures
        final(v)@ == old(v)@ + s@,
{
    let mut c = chars_of(s);
    v.append(&mut c);
}

/// Appends the characters of `s` to `v`.
pub fn push_chars(v: &mut Vec<char>, s: &Vec<char>)
    ensures
        final(v)@ == old(v)@ + s@,
{
    let mut i: usize = 0;
    let ghost start = v@;
    while i < s.len()
        invariant
            i <= s.len(),
            v@ == start + s@.take(i as int),
        decreases s.len() - i,
    {
        v.push(s[i]);
        assert(s@.take(i as int + 1) =~= s@.take(i as int).push(s@[i as int]));
        i += 1;
    }
    assert(s@.take(s.len() as int) =~= s@);
}

/// The last `n` characters of `s`, or all of them when it has fewer.
pub open spec fn last_chars(s: Seq<char>, n: nat) -> Seq<char> {
    if s.len() <= n {
        s
    } else {
        s.subrange(s.len() - n, s.len() as int)
    }
}

/// `chars().rev().take(n)` reversed again: the last `n` characters.
pub fn last_chars_of(s: &Vec<char>, n: usize) -> (r: Vec<char>)
    ensures
        r@ == last_chars(s@, n as nat),
{
    if s.len() <= n {
        copy_range(s, 0, s.len())
    } else {
        copy_range(s, s.len() - n, s.len())
    }
}

/// `s` and the literal `lit` hold the same characters.
pub fn eq_str(s: &Vec<char>, lit: &str) -> (r: bool)
    ensures
        r == (s@ == lit@),
{
    let l = chars_of(lit);
    if s.len() != l.len() {
        return false;
    }
    let mut i: usize = 0;
    while i < s.len()
        invariant
            i <= s.len(),
            s.len() == l.len(),
            l@ == lit@,
            forall|k: int| 0 <= k < i ==> s@[k] == l@[k],
        decreases s.len() - i,
    {
        if s[i] != l[i] {
            return false;
        }
        i += 1;
    }
    assert(s@ =~= l@);
    true
}

/// `s` starts with the characters of `prefix`.
pub fn starts_with_str(s: &Vec<char>, prefix: &str) -> (r: bool)
    ensures
        r == starts_with(s@, prefix@),
{
    let p = chars_of(prefix);
    if p.len() > s.len() {
        return false;
    }
    let mut i: usize = 0;
    while i < p.len()
        invariant
            i <= p.len() <= s.len(),
            p@ == prefix@,
            forall|k: int| 0 <= k < i ==> s@[k] == p@[k],
        decreases p.len() - i,
    {
        if s[i] != p[i] {
            return false;
        }
        i += 1;
    }
    assert(p@ =~= s@.subrange(0, p@.len() as int));
    true
}

/// `s` ends with the characters of `suffix`.
pub fn ends_with_str(s: &Vec<char>, suffix: &str) -> (r: bool)
    ensures
        r == ends_with(s@, suffix@),
{
    let p = chars_of(suffix);
    if p.len() > s.len() {
        return false;
    }
    let off = s.len() - p.len();
    let mut i: usize = 0;
    while i < p.len()
        invariant
            i <= p.len() <= s.len(),
            off == s.len() - p.len(),
            p@ == suffix@,
            forall|k: int| 0 <= k < i ==> s@[off + k] == p@[k],
        decreases p.len() - i,
    {
        if s[off + i] != p[i] {
            return false;
        }
        i += 1;
    }
    assert(p@ =~= s@.subrange(off as int, s@.len() as int));
    true
}

/// `s` contains the character `c`.
pub fn contains_char(s: &Vec<char>, c: char) -> (r: bool)
    ensures
        r == s@.contains(c),
{
    let mut i: usize = 0;
    while i < s.len()
        invariant
            i <= s.len(),
            forall|k: int| 0 <= k < i ==> s@[k] != c,
        decreases s.len() - i,
    {
        if s[i] == c {
            assert(s@[i as int] == c);
            return true;
        }
        i += 1;
    }
    false
}

/// Appending a character adds its UTF-8 width to the byte length.
pub proof fn lemma_utf8_len_push(s: Seq<char>, c: char)
    ensures
        utf8_len(s.push(c)) == utf8_len(s) + char_utf8_width(c),
    decreases s.len(),
{
    if s.len() == 0 {
        assert(s.push(c).drop_first() =~= seq![]);
        assert(utf8_len(s.push(c).drop_first()) == 0);
        assert(s.push(c)[0] == c);
    } else {
        assert(s.push(c)[0] == s[0]);
        lemma_utf8_len_push(s.drop_first(), c);
        assert(s.push(c).drop_first() =~= s.drop_first().push(c));
    }
}

pub proof fn lemma_utf8_len_bounds(s: Seq<char>)
    ensures
        s.len() <= utf8_len(s) <= 4 * s.len(),
        utf8_len(s) == 0 <==> s.len() == 0,
    decreases s.len(),
{
    if s.len() > 0 {
        lemma_utf8_len_bounds(s.drop_first());
    }
}

/// Whether the UTF-8 encoding of `s` is at most `max` bytes long.
pub fn utf8_len_at_most(s: &Vec<char>, max: usize) -> (r: bool)
    ensures
        r == (utf8_len(s@) <= max),
{
    let mut total: usize = 0;
    let mut i: usize = 0;
    while i < s.len()
        invariant
            i <= s.len(),
            total == utf8_len(s@.take(i as int)),
            total <= max,
        decreases s.len() - i,
    {
        let c = s[i];
        let u = c as u32;
        let w: usize = if u < 0x80 {
            1
        } else if u < 0x800 {
            2
        } else if u < 0x10000 {
            3
        } else {
            4
        };
        proof {
            lemma_utf8_len_push(s@.take(i as int), c);
            assert(s@.take(i as int).push(c) =~= s@.take(i as int + 1));
        }
        if w > max - total {
            proof {
                lemma_utf8_len_prefix(s@, i as int + 1);
            }
            return false;
        }
        total = total + w;
        i += 1;
    }
    assert(s@.take(s.len() as int) =~= s@);
    true
}

/// Whether the UTF-8 encoding of `s` is between `lo` and `hi` bytes long.
pub fn utf8_len_between(s: &Vec<char>, lo: usize, hi: usize) -> (r: bool)
    ensures
        r == (lo <= utf8_len(s@) <= hi),
{
    if lo == 0 {
        utf8_len_at_most(s, hi)
    } else {
        !utf8_len_at_most(s, lo - 1) && utf8_len_at_most(s, hi)
    }
}

/// The characters of `s` with white space runs collapsed.
pub fn collapsed(s: &str) -> (r: Vec<char>)
    ensures
        r@ == collapse_ws(s@),
{
    collapse_whitespace(&chars_of(s))
}

/// The characters of `s` with surrounding white space removed.
pub fn trimmed(s: &str) -> (r: Vec<char>)
    ensures
        r@ == trim_seq(s@),
{
    trim(&chars_of(s))
}

/// The characters of `s`, trimmed and ASCII lower-cased.
pub fn trimmed_lower(s: &str) -> (r: Vec<char>)
    ensures
        r@ == lower_seq(trim_seq(s@)),
{
    to_ascii_lowercase(&trim(&chars_of(s)))
}

pub proof fn lemma_utf8_len_prefix(s: Seq<char>, i: int)
    requires
        0 <= i <= s.len(),
    ensures
        utf8_len(s.take(i)) <= utf8_len(s),
    decreases s.len() - i,
{
    if i < s.len() {
        lemma_utf8_len_prefix(s, i + 1);
        lemma_utf8_len_push(s.take(i), s[i]);
        assert(s.take(i).push(s[i]) =~= s.take(i + 1));
    } else {
        assert(s.take(i) =~= s);
    }
}

proof fn lemma_drop_leading(s: Seq<char>, p: spec_fn(char) -> bool, i: int)
    requires
        0 <= i <= s.len(),
        forall|k: int| 0 <= k < i ==> p(#[trigger] s[k]),
        i == s.len() || !p(s[i]),
    ensures
        drop_leading(s, p) == s.subrange(i, s.len() as int),
    decreases i,
{
    if i > 0 {
        assert(p(s[0]));
        lemma_drop_leading(s.drop_first(), p, i - 1);
        assert(s.drop_first().subrange(i - 1, s.len() - 1) =~= s.subrange(i, s.len() as int));
    } else {
        assert(s.subrange(0, s.len() as int) =~= s);
    }
}

proof fn lemma_drop_trailing(s: Seq<char>, p: spec_fn(char) -> bool, j: int)
    requires
        0 <= j <= s.len(),
        forall|k: int| j <= k < s.len() ==> p(#[trigger] s[k]),
        j == 0 || !p(s[j - 1]),
    ensures
        drop_trailing(s, p) == s.subrange(0, j),
    decreases s.len() - j,
{
    if j < s.len() {
        assert(p(s.last()));
        lemma_drop_trailing(s.drop_last(), p, j);
        assert(s.drop_last().subrange(0, j) =~= s.subrange(0, j));
    } else {
        assert(s.subrange(0, j) =~= s);
    }
}

pub(crate) fn copy_range(s: &Vec<char>, from: usize, to: usize) -> (r: Vec<char>)
    requires
        from <= to <= s.len(),
    ensures
        r@ == s@.subrange(from as int, to as int),
{
    let mut r: Vec<char> = Vec::new();
    let mut i = from;
    while i < to
        invariant
            from <= i <= to <= s.len(),
            r@ == s@.subrange(from as int, i as int),
        decreases to - i,
    {
        r.push(s[i]);
        assert(s@.subrange(from as int, i as int).push(s@[i as int]) =~= s@.subrange(
            from as int,
            i as int + 1,
        ));
        i += 1;
    }
    r
}

/// `str::trim`.
pub fn trim(s: &Vec<char>) -> (r: Vec<char>)
    ensures
        r@ == trim_seq(s@),
{
    let ghost ws = |c: char| is_white_space(c);
    let mut i: usize = 0;
    while i < s.len() && is_whitespace(s[i])
        invariant
            i <= s.len(),
            forall|k: int| 0 <= k < i ==> is_white_space(#[trigger] s@[k]),
        decreases s.len() - i,
    {
        i += 1;
    }
    proof {
        lemma_drop_leading(s@, ws, i as int);
    }
    let mut j: usize = s.len();
    while j > i && is_whitespace(s[j - 1])
        invariant
            i <= j <= s.len(),
            forall|k: int| j <= k < s.len() ==> is_white_space(#[trigger] s@[k]),
        decreases j,
    {
        j -= 1;
    }
    let ghost mid = s@.subrange(i as int, s.len() as int);
    proof {
        assert forall|k: int| j - i <= k < mid.len() implies ws(#[trigger] mid[k]) by {
            assert(mid[k] == s@[i + k]);
        }
        if j > i {
            assert(mid[j - i - 1] == s@[j - 1]);
        }
        lemma_drop_trailing(mid, ws, j - i);
        assert(mid.subrange(0, j - i) =~= s@.subrange(i as int, j as int));
    }
    copy_range(s, i, j)
}

/// `trim_end_matches(c)`.
pub fn strip_trailing(s: &Vec<char>, c: char) -> (r: Vec<char>)
    ensures
        r@ == drop_trailing(s@, |x: char| x == c),
{
    let mut j: usize = s.len();
    while j > 0 && s[j - 1] == c
        invariant
            j <= s.len(),
            forall|k: int| j <= k < s.len() ==> #[trigger] s@[k] == c,
        decreases j,
    {
        j -= 1;
    }
    proof {
        lemma_drop_trailing(s@, |x: char| x == c, j as int);
    }
    copy_range(s, 0, j)
}

/// `trim_start_matches(c)`.
pub fn strip_leading(s: &Vec<char>, c: char) -> (r: Vec<char>)
    ensures
        r@ == drop_leading(s@, |x: char| x == c),
{
    let mut i: usize = 0;
    while i < s.len() && s[i] == c
        invariant
            i <= s.len(),
            forall|k: int| 0 <= k < i ==> #[trigger] s@[k] == c,
        decreases s.len() - i,
    {
        i += 1;
    }
    proof {
        lemma_drop_leading(s@, |x: char| x == c, i as int);
    }
    copy_range(s, i, s.len())
}

/// `str::to_ascii_lowercase`.
pub fn to_ascii_lowercase(s: &Vec<char>) -> (r: Vec<char>)
    ensures
        r@ == lower_seq(s@),
{
    let mut r: Vec<char> = Vec::new();
    let mut i: usize = 0;
    while i < s.len()
        invariant
            i <= s.len(),
            r@ == lower_seq(s@.take(i as int)),
        decreases s.len() - i,
    {
        r.push(ascii_lower_char(s[i]));
        assert(lower_seq(s@.take(i as int + 1)) =~= lower_seq(s@.take(i as int)).push(
            ascii_lower(s@[i as int]),
        ));
        i += 1;
    }
    assert(s@.take(s.len() as int) =~= s@);
    r
}

/// `str::to_ascii_uppercase`.
pub fn to_ascii_uppercase(s: &Vec<char>) -> (r: Vec<char>)
    ensures
        r@ == upper_seq(s@),
{
    let mut r: Vec<char> = Vec::new();
    let mut i: usize = 0;
    while i < s.len()
        invariant
            i <= s.len(),
            r@ == upper_seq(s@.take(i as int)),
        decreases s.len() - i,
    {
        r.push(ascii_upper_char(s[i]));
        assert(upper_seq(s@.take(i as int + 1)) =~= upper_seq(s@.take(i as int)).push(
            ascii_upper(s@[i as int]),
        ));
        i += 1;
    }
    assert(s@.take(s.len() as int) =~= s@);
    r
}

/// `split_whitespace().collect::<Vec<_>>().join(" ")`.
pub fn collapse_whitespace(s: &Vec<char>) -> (r: Vec<char>)
    ensures
        r@ == collapse_ws(s@),
{
    let mut r: Vec<char> = Vec::new();
    let mut i: usize = 0;
    while i < s.len()
        invariant
            i <= s.len(),
            r@ == collapse_ws(s@.take(i as int)),
        decreases s.len() - i,
    {
        let c = s[i];
        let ghost t = s@.take(i as int + 1);
        assert(t.drop_last() =~= s@.take(i as int));
        assert(t.last() == c);
        if is_whitespace(c) {
        } else if r.len() > 0 && is_whitespace(s[i - 1]) {
            assert(t[t.len() - 2] == s@[i - 1]);
            r.push(' ');
            r.push(c);
        } else {
            proof {
                if r.len() > 0 {
                    assert(t[t.len() - 2] == s@[i - 1]);
                }
            }
            r.push(c);
        }
        i += 1;
    }
    assert(s@.take(s.len() as int) =~= s@);
    r
}

/// Lower-cases `c` as `char::to_lowercase` does.
pub uninterp spec fn unicode_lowercase(c: char) -> Seq<char>;

/// Calls `char::to_lowercase` and collects the characters it yields. The
/// standard library documents that an ASCII character maps to its ASCII
/// lower case alone; the mapping of other characters comes from the Unicode
/// tables and is only named here.
#[verifier::external_body]
pub(crate) fn char_to_lowercase(c: char) -> (r: Vec<char>)
    ensures
        r@ == unicode_lowercase(c),
        (c as u32) < 0x80 ==> r@ == seq![ascii_lower(c)],
{
    c.to_lowercase().collect()
}

/// What `char::to_lowercase` yields for `c`: the ASCII lower case of an
/// ASCII character, the Unicode mapping of any other.
pub open spec fn char_lowercase(c: char) -> Seq<char> {
    if (c as u32) < 0x80 {
        seq![ascii_lower(c)]
    } else {
        unicode_lowercase(c)
    }
}

/// Every character of `s` lower-cased by `char::to_lowercase`.
pub open spec fn lowercase_all(s: Seq<char>) -> Seq<char> {
    s.flat_map(|c: char| char_lowercase(c))
}

/// ASCII letters and digits are kept; any other character becomes a `-`
/// unless the output is empty or already ends with one.
pub open spec fn dash_join(l: Seq<char>) -> Seq<char>
    decreases l.len(),
{
    if l.len() == 0 {
        seq![]
    } else {
        let p = dash_join(l.drop_last());
        let c = l.last();
        if is_ascii_alphanumeric(c) {
            p.push(c)
        } else if p.len() > 0 && p.last() != '-' {
            p.push('-')
        } else {
            p
        }
    }
}

/// The slug of a name: lower-cased, runs of other characters turned into
/// one `-`, no `-` at either end.
pub open spec fn slug_of(name: Seq<char>) -> Seq<char> {
    drop_trailing(dash_join(lowercase_all(name)), |c: char| c == '-')
}

/// A well-formed slug: ASCII letters, digits and single inner dashes.
pub open spec fn is_slug_shaped(s: Seq<char>) -> bool {
    &&& forall|i: int| 0 <= i < s.len() ==> is_ascii_alphanumeric(#[trigger] s[i]) || s[i] == '-'
    &&& s.len() > 0 ==> s[0] != '-' && s.last() != '-'
    &&& forall|i: int| 0 <= i < s.len() - 1 ==> !(#[trigger] s[i] == '-' && s[i + 1] == '-')
}

fn slug_step(out: &mut Vec<char>, c: char)
    ensures
        final(out)@ == (if is_ascii_alphanumeric(c) {
            old(out)@.push(c)
        } else if old(out)@.len() > 0 && old(out)@.last() != '-' {
            old(out)@.push('-')
        } else {
            old(out)@
        }),
{
    if is_ascii_alphanumeric_char(c) {
        out.push(c);
    } else if out.len() > 0 && out[out.len() - 1] != '-' {
        out.push('-');
    }
}

/// `slugify` without its error: the slug of `name`, possibly empty.
pub fn slug_chars(name: &Vec<char>) -> (r: Vec<char>)
    ensures
        r@ == slug_of(name@),
{
    let ghost f = |c: char| char_lowercase(c);
    let mut out: Vec<char> = Vec::new();
    let mut i: usize = 0;
    while i < name.len()
        invariant
            i <= name.len(),
            f == (|c: char| char_lowercase(c)),
            out@ == dash_join(name@.take(i as int).flat_map(f)),
        decreases name.len() - i,
    {
        let lc = char_to_lowercase(name[i]);
        let ghost flat = name@.take(i as int).flat_map(f);
        let mut j: usize = 0;
        while j < lc.len()
            invariant
                j <= lc.len(),
                out@ == dash_join(flat + lc@.take(j as int)),
            decreases lc.len() - j,
        {
            let ghost before = flat + lc@.take(j as int);
            assert((flat + lc@.take(j as int + 1)).drop_last() =~= before);
            assert((flat + lc@.take(j as int + 1)).last() == lc@[j as int]);
            slug_step(&mut out, lc[j]);
            j += 1;
        }
        proof {
            assert(lc@.take(lc.len() as int) =~= lc@);
            name@.take(i as int).lemma_flat_map_push(f, name@[i as int]);
            assert(name@.take(i as int).push(name@[i as int]) =~= name@.take(i as int + 1));
        }
        i += 1;
    }
    assert(name@.take(name.len() as int) =~= name@);
    strip_trailing(&out, '-')
}

proof fn lemma_dash_join_shape(l: Seq<char>)
    ensures
        ({
            let s = dash_join(l);
            &&& forall|i: int| 0 <= i < s.len() ==> is_ascii_alphanumeric(#[trigger] s[i]) || s[i] == '-'
            &&& s.len() > 0 ==> s[0] != '-'
            &&& forall|i: int| 0 <= i < s.len() - 1 ==> !(#[trigger] s[i] == '-' && s[i + 1] == '-')
        }),
    decreases l.len(),
{
    if l.len() > 0 {
        lemma_dash_join_shape(l.drop_last());
        let p = dash_join(l.drop_last());
        let s = dash_join(l);
        assert forall|i: int| 0 <= i < s.len() - 1 implies !(#[trigger] s[i] == '-' && s[i + 1] == '-') by {
            if i < p.len() - 1 {
                assert(s[i] == p[i] && s[i + 1] == p[i + 1]);
            }
        }
        assert forall|i: int| 0 <= i < s.len() implies is_ascii_alphanumeric(#[trigger] s[i]) || s[i] == '-' by {
            if i < p.len() {
                assert(s[i] == p[i]);
            }
        }
    }
}

proof fn lemma_drop_trailing_prefix(s: Seq<char>, p: spec_fn(char) -> bool)
    ensures
        drop_trailing(s, p).len() <= s.len(),
        drop_trailing(s, p) =~= s.take(drop_trailing(s, p).len() as int),
        drop_trailing(s, p).len() > 0 ==> !p(drop_trailing(s, p).last()),
    decreases s.len(),
{
    if s.len() > 0 && p(s.last()) {
        lemma_drop_trailing_prefix(s.drop_last(), p);
        let d = drop_trailing(s.drop_last(), p);
        assert(s.drop_last().take(d.len() as int) =~= s.take(d.len() as int));
    } else {
        assert(s.take(s.len() as int) =~= s);
    }
}

/// Every slug consists of ASCII letters, digits and single dashes between
/// them.
pub proof fn law_slug_is_well_formed(name: Seq<char>)
    ensures
        is_slug_shaped(slug_of(name)),
{
    let j = dash_join(lowercase_all(name));
    lemma_dash_join_shape(lowercase_all(name));
    lemma_drop_trailing_prefix(j, |c: char| c == '-');
    let s = slug_of(name);
    assert forall|i: int| 0 <= i < s.len() implies is_ascii_alphanumeric(#[trigger] s[i]) || s[i] == '-' by {
        assert(s[i] == j[i]);
    }
    assert forall|i: int| 0 <= i < s.len() - 1 implies !(#[trigger] s[i] == '-' && s[i + 1] == '-') by {
        assert(s[i] == j[i] && s[i + 1] == j[i + 1]);
    }
    if s.len() > 0 {
        assert(s[0] == j[0]);
    }
}

proof fn lemma_lowercase_ascii(name: Seq<char>)
    requires
        forall|i: int| 0 <= i < name.len() ==> (#[trigger] name[i] as u32) < 0x80,
    ensures
        lowercase_all(name) =~= name.map_values(|c: char| ascii_lower(c)),
    decreases name.len(),
{
    if name.len() > 0 {
        let t = name.drop_last();
        lemma_lowercase_ascii(t);
        t.lemma_flat_map_push(|c: char| char_lowercase(c), name.last());
        assert(t.push(name.last()) =~= name);
    } else {
        assert(name.map_values(|c: char| char_lowercase(c)) =~= Seq::<Seq<char>>::empty());
        assert(Seq::<Seq<char>>::empty().flatten() =~= Seq::<char>::empty()) by {
            reveal_with_fuel(Seq::flatten, 1);
        }
    }
}

proof fn lemma_dash_join_nonempty(l: Seq<char>)
    ensures
        dash_join(l).len() > 0 <==> exists|i: int| 0 <= i < l.len() && is_ascii_alphanumeric(#[trigger] l[i]),
    decreases l.len(),
{
    if l.len() > 0 {
        let t = l.drop_last();
        lemma_dash_join_nonempty(t);
        if is_ascii_alphanumeric(l.last()) {
            assert(is_ascii_alphanumeric(l[l.len() - 1]));
        } else {
            if exists|i: int| 0 <= i < l.len() && is_ascii_alphanumeric(#[trigger] l[i]) {
                let i = choose|i: int| 0 <= i < l.len() && is_ascii_alphanumeric(#[trigger] l[i]);
                assert(t[i] == l[i]);
            }
            if exists|i: int| 0 <= i < t.len() && is_ascii_alphanumeric(#[trigger] t[i]) {
                let i = choose|i: int| 0 <= i < t.len() && is_ascii_alphanumeric(#[trigger] t[i]);
                assert(t[i] == l[i]);
            }
        }
    }
}

proof fn lemma_dash_join_no_upper(l: Seq<char>)
    requires
        forall|i: int| 0 <= i < l.len() ==> !is_ascii_upper(#[trigger] l[i]),
    ensures
        forall|i: int| 0 <= i < dash_join(l).len() ==> !is_ascii_upper(#[trigger] dash_join(l)[i]),
    decreases l.len(),
{
    if l.len() > 0 {
        let t = l.drop_last();
        assert forall|i: int| 0 <= i < t.len() implies !is_ascii_upper(#[trigger] t[i]) by {
            assert(t[i] == l[i]);
        }
        lemma_dash_join_no_upper(t);
        let p = dash_join(t);
        let s = dash_join(l);
        assert(!is_ascii_upper(l[l.len() - 1]));
        assert forall|i: int| 0 <= i < s.len() implies !is_ascii_upper(#[trigger] s[i]) by {
            if i < p.len() {
                assert(s[i] == p[i]);
            }
        }
    }
}

proof fn lemma_dash_join_of_slug(s: Seq<char>)
    requires
        forall|i: int| 0 <= i < s.len() ==> is_ascii_alphanumeric(#[trigger] s[i]) || s[i] == '-',
        s.len() > 0 ==> s[0] != '-',
        forall|i: int| 0 <= i < s.len() - 1 ==> !(#[trigger] s[i] == '-' && s[i + 1] == '-'),
    ensures
        dash_join(s) == s,
    decreases s.len(),
{
    if s.len() > 0 {
        let t = s.drop_last();
        assert forall|i: int| 0 <= i < t.len() implies is_ascii_alphanumeric(#[trigger] t[i]) || t[i] == '-' by {
            assert(t[i] == s[i]);
        }
        assert forall|i: int| 0 <= i < t.len() - 1 implies !(#[trigger] t[i] == '-' && t[i + 1] == '-') by {
            assert(t[i] == s[i] && t[i + 1] == s[i + 1]);
        }
        if t.len() > 0 {
            assert(t[0] == s[0]);
        }
        lemma_dash_join_of_slug(t);
        let c = s[s.len() - 1];
        if !is_ascii_alphanumeric(c) {
            assert(c == '-');
            assert(s.len() >= 2);
            assert(!(s[s.len() - 2] == '-' && s[s.len() - 1] == '-'));
        }
        assert(t.push(c) =~= s);
    }
}

proof fn lemma_drop_trailing_keeps(s: Seq<char>, p: spec_fn(char) -> bool, i: int)
    requires
        0 <= i < s.len(),
        !p(s[i]),
    ensures
        drop_trailing(s, p).len() > i,
    decreases s.len(),
{
    if s.len() > 0 && p(s.last()) {
        assert(i < s.len() - 1);
        assert(s.drop_last()[i] == s[i]);
        lemma_drop_trailing_keeps(s.drop_last(), p, i);
    }
}

/// A lower-case slug is its own slug: `slugify` gives a well-formed slug
/// without ASCII capitals back unchanged.
pub proof fn law_slug_of_a_slug(s: Seq<char>)
    requires
        is_slug_shaped(s),
        forall|i: int| 0 <= i < s.len() ==> !is_ascii_upper(#[trigger] s[i]),
    ensures
        slug_of(s) == s,
{
    assert forall|i: int| 0 <= i < s.len() implies (#[trigger] s[i] as u32) < 0x80 by {
        assert(is_ascii_alphanumeric(s[i]) || s[i] == '-');
    }
    lemma_lowercase_ascii(s);
    assert(lowercase_all(s) =~= s);
    lemma_dash_join_of_slug(s);
}

/// Slugging an ASCII name twice gives the same slug as slugging it once.
pub proof fn law_slug_idempotent(name: Seq<char>)
    requires
        forall|i: int| 0 <= i < name.len() ==> (#[trigger] name[i] as u32) < 0x80,
    ensures
        slug_of(slug_of(name)) == slug_of(name),
{
    law_slug_is_well_formed(name);
    lemma_lowercase_ascii(name);
    let l = lowercase_all(name);
    assert forall|i: int| 0 <= i < l.len() implies !is_ascii_upper(#[trigger] l[i]) by {
        assert(l[i] == ascii_lower(name[i]));
    }
    lemma_dash_join_no_upper(l);
    let j = dash_join(l);
    lemma_drop_trailing_prefix(j, |c: char| c == '-');
    let s = slug_of(name);
    assert forall|i: int| 0 <= i < s.len() implies !is_ascii_upper(#[trigger] s[i]) by {
        assert(s[i] == j[i]);
    }
    law_slug_of_a_slug(s);
}

/// A name has a slug exactly when its lower-cased form holds an ASCII letter
/// or digit; for an ASCII name, exactly when the name itself holds one.
pub proof fn law_slug_nonempty(name: Seq<char>)
    ensures
        slug_of(name).len() > 0 <==> exists|i: int|
            0 <= i < lowercase_all(name).len() && is_ascii_alphanumeric(#[trigger] lowercase_all(name)[i]),
        (forall|i: int| 0 <= i < name.len() ==> (#[trigger] name[i] as u32) < 0x80) ==> (slug_of(name).len()
            > 0 <==> exists|i: int| 0 <= i < name.len() && is_ascii_alphanumeric(#[trigger] name[i])),
{
    let l = lowercase_all(name);
    let j = dash_join(l);
    lemma_dash_join_nonempty(l);
    lemma_dash_join_shape(l);
    lemma_drop_trailing_prefix(j, |c: char| c == '-');
    if j.len() > 0 {
        lemma_drop_trailing_keeps(j, |c: char| c == '-', 0);
    }
    if forall|i: int| 0 <= i < name.len() ==> (#[trigger] name[i] as u32) < 0x80 {
        lemma_lowercase_ascii(name);
        if exists|i: int| 0 <= i < name.len() && is_ascii_alphanumeric(#[trigger] name[i]) {
            let i = choose|i: int| 0 <= i < name.len() && is_ascii_alphanumeric(#[trigger] name[i]);
            assert(l[i] == ascii_lower(name[i]));
            assert(is_ascii_alphanumeric(l[i]));
        }
        if exists|i: int| 0 <= i < l.len() && is_ascii_alphanumeric(#[trigger] l[i]) {
            let i = choose|i: int| 0 <= i < l.len() && is_ascii_alphanumeric(#[trigger] l[i]);
            assert(l[i] == ascii_lower(name[i]));
            assert(is_ascii_alphanumeric(name[i]));
        }
    }
}

} // verus!
