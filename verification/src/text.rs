//! Character-level text helpers shared by every parser and classifier of the
//! library: ASCII case folding, trimming, substring search and splitting, each
//! stated over `Seq<char>` and implemented on `&str` / `String`.

use vstd::prelude::*;

verus! {

// ---------------------------------------------------------------------------
// Specifications
// ---------------------------------------------------------------------------

/// ASCII lower-casing of one character (`char::to_ascii_lowercase`).
pub open spec fn lower_char(c: char) -> char {
    if 'A' <= c && c <= 'Z' {
        ((c as int) + 32) as char
    } else {
        c
    }
}

/// ASCII upper-casing of one character (`char::to_ascii_uppercase`).
pub open spec fn upper_char(c: char) -> char {
    if 'a' <= c && c <= 'z' {
        ((c as int) - 32) as char
    } else {
        c
    }
}

/// `str::to_ascii_lowercase`.
pub open spec fn lower(s: Seq<char>) -> Seq<char> {
    s.map_values(|c: char| lower_char(c))
}

/// `str::to_ascii_uppercase`.
pub open spec fn upper(s: Seq<char>) -> Seq<char> {
    s.map_values(|c: char| upper_char(c))
}

/// `str::eq_ignore_ascii_case`.
pub open spec fn eq_ignore_case(a: Seq<char>, b: Seq<char>) -> bool {
    lower(a) == lower(b)
}

/// Unicode `White_Space` (`char::is_whitespace`), the set that `str::trim` and
/// `str::split_whitespace` use.
pub open spec fn is_ws(c: char) -> bool {
    ||| c == ' '
    ||| c == '\t'
    ||| c == '\n'
    ||| c == '\r'
    ||| c == '\u{0B}'
    ||| c == '\u{0C}'
    ||| c == '\u{85}'
    ||| c == '\u{A0}'
    ||| c == '\u{1680}'
    ||| ('\u{2000}' <= c && c <= '\u{200A}')
    ||| c == '\u{2028}'
    ||| c == '\u{2029}'
    ||| c == '\u{202F}'
    ||| c == '\u{205F}'
    ||| c == '\u{3000}'
}

/// `str::trim_start`.
pub open spec fn trim_start(s: Seq<char>) -> Seq<char>
    decreases s.len(),
{
    if s.len() > 0 && is_ws(s[0]) {
        trim_start(s.drop_first())
    } else {
        s
    }
}

/// `str::trim_end`.
pub open spec fn trim_end(s: Seq<char>) -> Seq<char>
    decreases s.len(),
{
    if s.len() > 0 && is_ws(s.last()) {
        trim_end(s.drop_last())
    } else {
        s
    }
}

/// `str::trim`.
pub open spec fn trim(s: Seq<char>) -> Seq<char> {
    trim_end(trim_start(s))
}

/// `needle` occurs in `hay` at position `i`.
pub open spec fn occurs_at(hay: Seq<char>, needle: Seq<char>, i: int) -> bool {
    0 <= i && i + needle.len() <= hay.len() && hay.subrange(i, i + needle.len()) == needle
}

/// `str::contains` with a string pattern.
pub open spec fn contains(hay: Seq<char>, needle: Seq<char>) -> bool {
    exists|i: int| occurs_at(hay, needle, i)
}

/// `str::starts_with`.
pub open spec fn starts_with(s: Seq<char>, prefix: Seq<char>) -> bool {
    occurs_at(s, prefix, 0)
}

/// `str::ends_with`.
pub open spec fn ends_with(s: Seq<char>, suffix: Seq<char>) -> bool {
    suffix.len() <= s.len() && occurs_at(s, suffix, s.len() - suffix.len())
}

/// Position of the first occurrence at or after `from` (`str::find` when `from` is 0).
pub open spec fn find_from(hay: Seq<char>, needle: Seq<char>, from: int) -> Option<int>
    decreases hay.len() + 1 - from,
{
    if from < 0 || from + needle.len() > hay.len() {
        None
    } else if occurs_at(hay, needle, from) {
        Some(from)
    } else {
        find_from(hay, needle, from + 1)
    }
}

/// `str::find`.
pub open spec fn find(hay: Seq<char>, needle: Seq<char>) -> Option<int> {
    find_from(hay, needle, 0)
}

/// Position of the first occurrence of `c` at or after `from`.
pub open spec fn find_char_from(s: Seq<char>, c: char, from: int) -> Option<int>
    decreases s.len() - from,
{
    if from < 0 || from >= s.len() {
        None
    } else if s[from] == c {
        Some(from)
    } else {
        find_char_from(s, c, from + 1)
    }
}

/// Position of the last occurrence of `c` before `upto`.
pub open spec fn rfind_char_before(s: Seq<char>, c: char, upto: int) -> Option<int>
    decreases upto,
{
    if upto <= 0 || upto > s.len() {
        None
    } else if s[upto - 1] == c {
        Some(upto - 1)
    } else {
        rfind_char_before(s, c, upto - 1)
    }
}

/// The part of `s` before the first `c` (the first item of `str::split(c)`).
pub open spec fn before_char(s: Seq<char>, c: char) -> Seq<char> {
    match find_char_from(s, c, 0) {
        Some(i) => s.subrange(0, i),
        None => s,
    }
}

/// `str::split(sep)` on a one-character separator.
pub open spec fn split_char(s: Seq<char>, sep: char) -> Seq<Seq<char>>
    decreases s.len(),
{
    proof {
        lemma_find_char_from(s, sep, 0);
    }
    match find_char_from(s, sep, 0) {
        Some(i) => seq![s.subrange(0, i)] + split_char(s.subrange(i + 1, s.len() as int), sep),
        None => seq![s],
    }
}

/// `str::split_whitespace`.
pub open spec fn split_ws(s: Seq<char>) -> Seq<Seq<char>>
    decreases s.len(),
{
    if s.len() == 0 {
        seq![]
    } else if is_ws(s[0]) {
        split_ws(s.drop_first())
    } else {
        proof {
            lemma_word_len(s, 1);
        }
        let w = word_len(s, 0);
        seq![s.subrange(0, w)] + split_ws(s.subrange(w, s.len() as int))
    }
}

/// Length of the run of non-whitespace characters of `s` starting at `i`.
pub open spec fn word_len(s: Seq<char>, i: int) -> int
    decreases s.len() - i,
{
    if i < 0 || i >= s.len() || is_ws(s[i]) {
        i
    } else {
        word_len(s, i + 1)
    }
}

/// `str::replace(from, to)` with a one-character pattern.
pub open spec fn replace_char(s: Seq<char>, from: char, to: char) -> Seq<char> {
    s.map_values(|c: char| if c == from { to } else { c })
}

/// `str::replace(pat, to)` with a string pattern: non-overlapping occurrences,
/// scanned from the left.
pub open spec fn replace_all(s: Seq<char>, pat: Seq<char>, to: Seq<char>) -> Seq<char>
    decreases s.len(),
{
    if pat.len() == 0 || s.len() == 0 {
        s
    } else if starts_with(s, pat) {
        to + replace_all(s.subrange(pat.len() as int, s.len() as int), pat, to)
    } else {
        seq![s[0]] + replace_all(s.drop_first(), pat, to)
    }
}

/// Strict lexicographic order of character sequences (`String`'s `<`).
pub open spec fn lex_lt(a: Seq<char>, b: Seq<char>) -> bool
    decreases a.len(),
{
    if b.len() == 0 {
        false
    } else if a.len() == 0 {
        true
    } else if a[0] != b[0] {
        a[0] < b[0]
    } else {
        lex_lt(a.drop_first(), b.drop_first())
    }
}

/// `s` is a non-empty run of ASCII decimal digits.
pub open spec fn all_digits(s: Seq<char>) -> bool {
    forall|i: int| 0 <= i < s.len() ==> '0' <= #[trigger] s[i] && s[i] <= '9'
}

/// The number a run of decimal digits denotes.
pub open spec fn digits_value(s: Seq<char>) -> int
    decreases s.len(),
{
    if s.len() == 0 {
        0
    } else {
        digits_value(s.drop_last()) * 10 + (s.last() as int - '0' as int)
    }
}

/// `str::parse` for an unsigned integer type whose largest value is `max`:
/// an optional `+`, then at least one decimal digit, with a value at most `max`.
pub open spec fn parse_unsigned(s: Seq<char>, max: int) -> Option<int> {
    let d = if s.len() > 0 && s[0] == '+' {
        s.drop_first()
    } else {
        s
    };
    if d.len() == 0 || !all_digits(d) || digits_value(d) > max {
        None
    } else {
        Some(digits_value(d))
    }
}

// ---------------------------------------------------------------------------
// Lemmas
// ---------------------------------------------------------------------------

pub proof fn lemma_lower_len(s: Seq<char>)
    ensures
        lower(s).len() == s.len(),
{
}

/// Lower-casing keeps a prefix that holds no upper-case letter.
pub proof fn lemma_lower_keeps_prefix(t: Seq<char>, p: Seq<char>)
    requires
        starts_with(t, p),
        forall|i: int| 0 <= i < p.len() ==> !('A' <= #[trigger] p[i] && p[i] <= 'Z'),
    ensures
        starts_with(lower(t), p),
{
    assert(t.subrange(0, p.len() as int) == p);
    assert forall|i: int| 0 <= i < p.len() implies #[trigger] lower(t)[i] == p[i] by {
        assert(t.subrange(0, p.len() as int)[i] == t[i]);
    }
    assert(lower(t).subrange(0, p.len() as int) =~= p);
}

pub proof fn lemma_trim_end_is_prefix(s: Seq<char>)
    ensures
        trim_end(s).len() <= s.len(),
        trim_end(s) == s.subrange(0, trim_end(s).len() as int),
    decreases s.len(),
{
    if s.len() > 0 && is_ws(s.last()) {
        lemma_trim_end_is_prefix(s.drop_last());
        assert(s.drop_last().subrange(0, trim_end(s).len() as int) =~= s.subrange(
            0,
            trim_end(s).len() as int,
        ));
    } else {
        assert(s.subrange(0, s.len() as int) =~= s);
    }
}

/// `find_from` returns the least occurrence at or after `from`.
pub proof fn lemma_find_from(hay: Seq<char>, needle: Seq<char>, from: int)
    requires
        from >= 0,
    ensures
        match find_from(hay, needle, from) {
            Some(i) => from <= i && occurs_at(hay, needle, i) && forall|j: int|
                from <= j < i ==> !occurs_at(hay, needle, j),
            None => forall|j: int| from <= j ==> !occurs_at(hay, needle, j),
        },
    decreases hay.len() + 1 - from,
{
    if from + needle.len() > hay.len() {
    } else if occurs_at(hay, needle, from) {
    } else {
        lemma_find_from(hay, needle, from + 1);
    }
}

pub proof fn lemma_find_char_from(s: Seq<char>, c: char, from: int)
    requires
        from >= 0,
    ensures
        match find_char_from(s, c, from) {
            Some(i) => from <= i < s.len() && s[i] == c && forall|j: int|
                from <= j < i ==> s[j] != c,
            None => forall|j: int| from <= j < s.len() ==> s[j] != c,
        },
    decreases s.len() - from,
{
    if from >= s.len() {
    } else if s[from] == c {
    } else {
        lemma_find_char_from(s, c, from + 1);
    }
}

pub proof fn lemma_word_len(s: Seq<char>, i: int)
    requires
        0 <= i <= s.len(),
    ensures
        i <= word_len(s, i) <= s.len(),
        forall|k: int| i <= k < word_len(s, i) ==> !is_ws(#[trigger] s[k]),
        word_len(s, i) < s.len() ==> is_ws(s[word_len(s, i)]),
    decreases s.len() - i,
{
    if i >= s.len() || is_ws(s[i]) {
    } else {
        lemma_word_len(s, i + 1);
    }
}


/// Appending digits never makes a number smaller.
pub proof fn lemma_digits_value_prefix(s: Seq<char>, k: int)
    requires
        0 <= k <= s.len(),
        all_digits(s),
    ensures
        digits_value(s.subrange(0, k)) <= digits_value(s),
        0 <= digits_value(s.subrange(0, k)),
    decreases s.len() - k,
{
    if k == s.len() {
        assert(s.subrange(0, k) =~= s);
        lemma_digits_value_nonneg(s);
    } else {
        lemma_digits_value_prefix(s, k + 1);
        let p = s.subrange(0, k + 1);
        assert(p.drop_last() =~= s.subrange(0, k));
        assert(all_digits(p.drop_last()));
        lemma_digits_value_nonneg(p.drop_last());
        assert('0' <= p.last() && p.last() <= '9');
    }
}

pub proof fn lemma_digits_value_nonneg(s: Seq<char>)
    requires
        all_digits(s),
    ensures
        digits_value(s) >= 0,
    decreases s.len(),
{
    if s.len() > 0 {
        assert(all_digits(s.drop_last()));
        lemma_digits_value_nonneg(s.drop_last());
        assert('0' <= s.last());
    }
}

// ---------------------------------------------------------------------------
// Executable helpers
// ---------------------------------------------------------------------------

/// The characters of `s`, in order.
pub fn chars_of(s: &str) -> (v: Vec<char>)
    ensures
        v@ == s@,
{
    let mut v: Vec<char> = Vec::new();
    let n = s.unicode_len();
    let mut i: usize = 0;
    while i < n
        invariant
            n == s@.len(),
            i <= n,
            v@ == s@.subrange(0, i as int),
        decreases n - i,
    {
        let c = s.get_char(i);
        v.push(c);
        i = i + 1;
        assert(v@ =~= s@.subrange(0, i as int));
    }
    assert(v@ =~= s@);
    v
}

/// Builds a `String` from characters with std's `String::from_iter`
/// (`FromIterator<&char>`), which the standard library documents as pushing
/// each character in turn: the contract claims the text holds exactly the
/// characters of `v`, in order.
#[verifier::external_body]
pub(crate) fn string_from_chars(v: &[char]) -> (s: String)
    ensures
        s@ == v@,
{
    String::from_iter(v)
}

/// Builds a `String` from the characters of `v` in the range `[from, to)`.
pub fn string_from_range(v: &Vec<char>, from: usize, to: usize) -> (s: String)
    requires
        from <= to <= v.len(),
    ensures
        s@ == v@.subrange(from as int, to as int),
{
    let mut part: Vec<char> = Vec::new();
    let mut i = from;
    while i < to
        invariant
            from <= i <= to <= v.len(),
            part@ == v@.subrange(from as int, i as int),
        decreases to - i,
    {
        part.push(v[i]);
        i = i + 1;
        assert(part@ =~= v@.subrange(from as int, i as int));
    }
    string_from_chars(part.as_slice())
}

/// An owned copy of `s`.
pub fn owned(s: &str) -> (r: String)
    ensures
        r@ == s@,
{
    s.to_owned()
}

/// Concatenation of two strings.
pub fn concat2(a: &str, b: &str) -> (r: String)
    ensures
        r@ == a@ + b@,
{
    let mut r = a.to_owned();
    r.append(b);
    r
}

/// Concatenation of three strings.
pub fn concat3(a: &str, b: &str, c: &str) -> (r: String)
    ensures
        r@ == a@ + b@ + c@,
{
    let mut r = a.to_owned();
    r.append(b);
    r.append(c);
    r
}

/// `char::to_ascii_lowercase`.
pub fn lower_c(c: char) -> (r: char)
    ensures
        r == lower_char(c),
{
    if 'A' <= c && c <= 'Z' {
        let b = c as u8;
        ((b + 32) as char)
    } else {
        c
    }
}

/// `char::to_ascii_uppercase`.
pub fn upper_c(c: char) -> (r: char)
    ensures
        r == upper_char(c),
{
    if 'a' <= c && c <= 'z' {
        let b = c as u8;
        ((b - 32) as char)
    } else {
        c
    }
}

/// `char::is_whitespace`.
pub fn is_ws_c(c: char) -> (r: bool)
    ensures
        r == is_ws(c),
{
    c == ' ' || c == '\t' || c == '\n' || c == '\r' || c == '\u{0B}' || c == '\u{0C}' || c
        == '\u{85}' || c == '\u{A0}' || c == '\u{1680}' || ('\u{2000}' <= c && c <= '\u{200A}')
        || c == '\u{2028}' || c == '\u{2029}' || c == '\u{202F}' || c == '\u{205F}' || c
        == '\u{3000}'
}

/// `to_ascii_lowercase` on a character vector.
pub fn lower_vec(v: &Vec<char>) -> (r: Vec<char>)
    ensures
        r@ == lower(v@),
{
    let mut r: Vec<char> = Vec::new();
    let mut i: usize = 0;
    while i < v.len()
        invariant
            i <= v.len(),
            r@ == lower(v@.subrange(0, i as int)),
        decreases v.len() - i,
    {
        r.push(lower_c(v[i]));
        i = i + 1;
        assert(r@ =~= lower(v@.subrange(0, i as int)));
    }
    assert(v@.subrange(0, v.len() as int) =~= v@);
    r
}

/// `str::to_ascii_lowercase`.
pub fn to_lower(s: &str) -> (r: String)
    ensures
        r@ == lower(s@),
{
    let v = chars_of(s);
    let l = lower_vec(&v);
    string_from_chars(l.as_slice())
}

/// `str::to_ascii_uppercase`.
pub fn to_upper(s: &str) -> (r: String)
    ensures
        r@ == upper(s@),
{
    let v = chars_of(s);
    let mut r: Vec<char> = Vec::new();
    let mut i: usize = 0;
    while i < v.len()
        invariant
            i <= v.len(),
            v@ == s@,
            r@ == upper(v@.subrange(0, i as int)),
        decreases v.len() - i,
    {
        r.push(upper_c(v[i]));
        i = i + 1;
        assert(r@ =~= upper(v@.subrange(0, i as int)));
    }
    assert(v@.subrange(0, v.len() as int) =~= v@);
    string_from_chars(r.as_slice())
}

/// Equality of two character sequences.
pub fn seq_eq(a: &Vec<char>, b: &Vec<char>) -> (r: bool)
    ensures
        r == (a@ == b@),
{
    if a.len() != b.len() {
        return false;
    }
    let mut i: usize = 0;
    while i < a.len()
        invariant
            a.len() == b.len(),
            i <= a.len(),
            forall|k: int| 0 <= k < i ==> a@[k] == b@[k],
        decreases a.len() - i,
    {
        if a[i] != b[i] {
            return false;
        }
        i = i + 1;
    }
    assert(a@ =~= b@);
    true
}

/// `a == b` on strings.
pub fn str_eq(a: &str, b: &str) -> (r: bool)
    ensures
        r == (a@ == b@),
{
    let va = chars_of(a);
    let vb = chars_of(b);
    seq_eq(&va, &vb)
}

/// `str::eq_ignore_ascii_case`.
pub fn eq_ic(a: &str, b: &str) -> (r: bool)
    ensures
        r == eq_ignore_case(a@, b@),
{
    let va = lower_vec(&chars_of(a));
    let vb = lower_vec(&chars_of(b));
    seq_eq(&va, &vb)
}

/// `needle` occurs in `hay` at `i`.
pub fn occurs_at_exec(hay: &Vec<char>, needle: &Vec<char>, i: usize) -> (r: bool)
    ensures
        r == occurs_at(hay@, needle@, i as int),
{
    if i > hay.len() || needle.len() > hay.len() - i {
        return false;
    }
    let mut k: usize = 0;
    while k < needle.len()
        invariant
            i + needle.len() <= hay.len(),
            k <= needle.len(),
            forall|j: int| 0 <= j < k ==> hay@[i + j] == needle@[j],
        decreases needle.len() - k,
    {
        if hay[i + k] != needle[k] {
            assert(hay@.subrange(i as int, i + needle.len())[k as int] != needle@[k as int]);
            return false;
        }
        k = k + 1;
    }
    assert(hay@.subrange(i as int, i + needle.len()) =~= needle@);
    true
}

/// `str::find` on character vectors, starting the search at `from`.
pub fn find_from_vec(hay: &Vec<char>, needle: &Vec<char>, from: usize) -> (r: Option<usize>)
    ensures
        r matches Some(i) ==> find_from(hay@, needle@, from as int) == Some(i as int),
        r is None ==> find_from(hay@, needle@, from as int) is None,
{
    if needle.len() == 0 {
        if from <= hay.len() {
            assert(hay@.subrange(from as int, from as int) =~= needle@);
            return Some(from);
        } else {
            return None;
        }
    }
    let mut i = from;
    while i < hay.len() && needle.len() <= hay.len() - i
        invariant
            from <= i,
            needle.len() > 0,
            find_from(hay@, needle@, from as int) == find_from(hay@, needle@, i as int),
        decreases hay.len() - i,
    {
        if occurs_at_exec(hay, needle, i) {
            return Some(i);
        }
        i = i + 1;
    }
    None
}

/// `str::contains` on character vectors.
pub fn contains_vec(hay: &Vec<char>, needle: &Vec<char>) -> (r: bool)
    ensures
        r == contains(hay@, needle@),
{
    let f = find_from_vec(hay, needle, 0);
    proof {
        lemma_find_from(hay@, needle@, 0);
    }
    match f {
        Some(i) => {
            assert(occurs_at(hay@, needle@, i as int));
            true
        },
        None => false,
    }
}

/// `str::contains`.
pub fn contains_str(hay: &str, needle: &str) -> (r: bool)
    ensures
        r == contains(hay@, needle@),
{
    let h = chars_of(hay);
    let n = chars_of(needle);
    contains_vec(&h, &n)
}

/// `str::starts_with`.
pub fn starts_with_str(s: &str, prefix: &str) -> (r: bool)
    ensures
        r == starts_with(s@, prefix@),
{
    let h = chars_of(s);
    let p = chars_of(prefix);
    occurs_at_exec(&h, &p, 0)
}


/// Any of `needles` occurs in `hay`.
pub fn contains_any_str(hay: &str, needles: &[&str]) -> (r: bool)
    ensures
        r == (exists|i: int| 0 <= i < needles@.len() && contains(hay@, (#[trigger] needles@[i])@)),
{
    let h = chars_of(hay);
    let mut i: usize = 0;
    while i < needles.len()
        invariant
            h@ == hay@,
            i <= needles@.len(),
            forall|k: int| 0 <= k < i ==> !contains(hay@, (#[trigger] needles@[k])@),
        decreases needles.len() - i,
    {
        let n = chars_of(needles[i]);
        if contains_vec(&h, &n) {
            return true;
        }
        i = i + 1;
    }
    false
}

/// `str::trim` on a character vector, returned as `[start, end)` bounds.
pub fn trim_bounds(v: &Vec<char>) -> (r: (usize, usize))
    ensures
        r.0 <= r.1 <= v.len(),
        v@.subrange(r.0 as int, r.1 as int) == trim(v@),
{
    let mut start: usize = 0;
    assert(v@.subrange(0, v.len() as int) =~= v@);
    while start < v.len() && is_ws_c(v[start])
        invariant
            start <= v.len(),
            trim_start(v@) == trim_start(v@.subrange(start as int, v.len() as int)),
        decreases v.len() - start,
    {
        proof {
            let t = v@.subrange(start as int, v.len() as int);
            assert(t.drop_first() =~= v@.subrange(start + 1, v.len() as int));
        }
        start = start + 1;
    }
    let ghost ts = v@.subrange(start as int, v.len() as int);
    assert(trim_start(ts) == ts);
    let mut end: usize = v.len();
    while end > start && is_ws_c(v[end - 1])
        invariant
            start <= end <= v.len(),
            ts == v@.subrange(start as int, v.len() as int),
            trim_end(ts) == trim_end(v@.subrange(start as int, end as int)),
        decreases end,
    {
        proof {
            let t = v@.subrange(start as int, end as int);
            assert(t.drop_last() =~= v@.subrange(start as int, end - 1));
        }
        end = end - 1;
    }
    (start, end)
}

/// `str::trim`, owned.
pub fn trim_str(s: &str) -> (r: String)
    ensures
        r@ == trim(s@),
{
    let v = chars_of(s);
    let (a, b) = trim_bounds(&v);
    string_from_range(&v, a, b)
}

/// `str::split_whitespace`, owned tokens.
pub fn split_ws_str(s: &str) -> (r: Vec<String>)
    ensures
        r@.len() == split_ws(s@).len(),
        forall|i: int| 0 <= i < r@.len() ==> (#[trigger] r@[i])@ == split_ws(s@)[i],
{
    let v = chars_of(s);
    let mut out: Vec<String> = Vec::new();
    let mut pos: usize = 0;
    assert(v@.subrange(0, v.len() as int) =~= v@);
    assert(out@.map_values(|t: String| t@) + split_ws(v@) =~= split_ws(v@));
    while pos < v.len()
        invariant
            v@ == s@,
            pos <= v.len(),
            split_ws(s@) == out@.map_values(|t: String| t@) + split_ws(
                v@.subrange(pos as int, v.len() as int),
            ),
        decreases v.len() - pos,
    {
        let ghost rest = v@.subrange(pos as int, v.len() as int);
        if is_ws_c(v[pos]) {
            proof {
                assert(rest.drop_first() =~= v@.subrange(pos + 1, v.len() as int));
                assert(split_ws(rest) == split_ws(rest.drop_first()));
            }
            pos = pos + 1;
        } else {
            let mut end = pos;
            while end < v.len() && !is_ws_c(v[end])
                invariant
                    pos <= end <= v.len(),
                    forall|k: int| pos <= k < end ==> !is_ws(#[trigger] v@[k]),
                decreases v.len() - end,
            {
                end = end + 1;
            }
            let word = string_from_range(&v, pos, end);
            proof {
                lemma_word_len(rest, 0);
                assert forall|k: int| 0 <= k < end - pos implies !is_ws(#[trigger] rest[k]) by {
                    assert(rest[k] == v@[pos + k]);
                }
                assert(word_len(rest, 0) == end - pos) by {
                    lemma_word_len_exact(rest, 0, end - pos);
                }
                assert(rest.subrange(0, end - pos) =~= v@.subrange(pos as int, end as int));
                assert(rest.subrange(end - pos, rest.len() as int) =~= v@.subrange(
                    end as int,
                    v.len() as int,
                ));
                assert(split_ws(rest) == seq![v@.subrange(pos as int, end as int)] + split_ws(
                    v@.subrange(end as int, v.len() as int),
                ));
            }
            let ghost before = out@.map_values(|t: String| t@);
            out.push(word);
            proof {
                assert(out@.map_values(|t: String| t@) =~= before.push(
                    v@.subrange(pos as int, end as int),
                ));
            }
            pos = end;
        }
    }
    proof {
        assert(v@.subrange(pos as int, v.len() as int) =~= Seq::<char>::empty());
        assert(split_ws(Seq::<char>::empty()) =~= Seq::<Seq<char>>::empty());
        assert(split_ws(s@) =~= out@.map_values(|t: String| t@));
    }
    out
}

proof fn lemma_word_len_exact(s: Seq<char>, i: int, n: int)
    requires
        0 <= i <= n <= s.len(),
        forall|k: int| i <= k < n ==> !is_ws(#[trigger] s[k]),
        n < s.len() ==> is_ws(s[n]),
    ensures
        word_len(s, i) == n,
    decreases n - i,
{
    if i < n {
        lemma_word_len_exact(s, i + 1, n);
    }
}

/// `str::replace(from, to)` for one-character patterns.
pub fn replace_char_str(s: &str, from: char, to: char) -> (r: String)
    ensures
        r@ == replace_char(s@, from, to),
{
    let v = chars_of(s);
    let mut out: Vec<char> = Vec::new();
    let mut i: usize = 0;
    while i < v.len()
        invariant
            v@ == s@,
            i <= v.len(),
            out@ == replace_char(v@.subrange(0, i as int), from, to),
        decreases v.len() - i,
    {
        let c = v[i];
        out.push(if c == from { to } else { c });
        i = i + 1;
        assert(out@ =~= replace_char(v@.subrange(0, i as int), from, to));
    }
    assert(v@.subrange(0, v.len() as int) =~= v@);
    string_from_chars(out.as_slice())
}

/// `str::replace(pat, to)` for string patterns.
pub fn replace_all_vec(v: &Vec<char>, pat: &Vec<char>, to: &Vec<char>) -> (r: Vec<char>)
    ensures
        r@ == replace_all(v@, pat@, to@),
{
    let mut out: Vec<char> = Vec::new();
    let mut i: usize = 0;
    assert(v@.subrange(0, v.len() as int) =~= v@);
    assert(out@ + replace_all(v@, pat@, to@) =~= replace_all(v@, pat@, to@));
    while i < v.len()
        invariant
            i <= v.len(),
            replace_all(v@, pat@, to@) == out@ + replace_all(
                v@.subrange(i as int, v.len() as int),
                pat@,
                to@,
            ),
        decreases v.len() - i,
    {
        let ghost rest = v@.subrange(i as int, v.len() as int);
        if pat.len() > 0 && occurs_at_exec(v, pat, i) {
            proof {
                assert(rest.subrange(0, pat@.len() as int) =~= v@.subrange(
                    i as int,
                    i + pat@.len(),
                ));
                assert(rest.subrange(pat@.len() as int, rest.len() as int) =~= v@.subrange(
                    i + pat@.len(),
                    v.len() as int,
                ));
            }
            let mut k: usize = 0;
            let ghost out0 = out@;
            while k < to.len()
                invariant
                    k <= to.len(),
                    out@ == out0 + to@.subrange(0, k as int),
                decreases to.len() - k,
            {
                out.push(to[k]);
                k = k + 1;
                assert(out@ =~= out0 + to@.subrange(0, k as int));
            }
            assert(to@.subrange(0, to.len() as int) =~= to@);
            assert(out@ + replace_all(v@.subrange(i + pat@.len(), v.len() as int), pat@, to@)
                =~= out0 + replace_all(rest, pat@, to@));
            i = i + pat.len();
        } else {
            proof {
                if pat.len() > 0 && i + pat@.len() <= v@.len() {
                    assert(rest.subrange(0, pat@.len() as int) =~= v@.subrange(
                        i as int,
                        i + pat@.len(),
                    ));
                }
                assert(rest.drop_first() =~= v@.subrange(i + 1, v.len() as int));
            }
            let ghost out0 = out@;
            out.push(v[i]);
            assert(out@ + replace_all(v@.subrange(i + 1, v.len() as int), pat@, to@) =~= out0
                + replace_all(rest, pat@, to@));
            i = i + 1;
        }
    }
    assert(out@ + replace_all(v@.subrange(i as int, v.len() as int), pat@, to@) =~= out@);
    out
}

/// The position of the first `c` in `v` at or after `from`.
pub fn find_char_vec(v: &Vec<char>, c: char, from: usize) -> (r: Option<usize>)
    ensures
        r matches Some(i) ==> find_char_from(v@, c, from as int) == Some(i as int),
        r matches Some(i) ==> from <= i < v.len() && v@[i as int] == c,
        r is None ==> find_char_from(v@, c, from as int) is None,
{
    let mut i = from;
    while i < v.len()
        invariant
            from <= i,
            find_char_from(v@, c, from as int) == find_char_from(v@, c, i as int),
        decreases v.len() - i,
    {
        if v[i] == c {
            return Some(i);
        }
        i = i + 1;
    }
    None
}

/// The position of the last `c` in `v` before `upto`.
pub fn rfind_char_vec(v: &Vec<char>, c: char, upto: usize) -> (r: Option<usize>)
    requires
        upto <= v.len(),
    ensures
        r matches Some(i) ==> rfind_char_before(v@, c, upto as int) == Some(i as int),
        r matches Some(i) ==> i < upto && v@[i as int] == c,
        r is None ==> rfind_char_before(v@, c, upto as int) is None,
{
    let mut i = upto;
    while i > 0
        invariant
            i <= upto <= v.len(),
            rfind_char_before(v@, c, upto as int) == rfind_char_before(v@, c, i as int),
        decreases i,
    {
        if v[i - 1] == c {
            return Some(i - 1);
        }
        i = i - 1;
    }
    None
}

/// `str::parse::<u64>` restricted to values at most `max` (the largest value of
/// the target unsigned type).
pub fn parse_unsigned_vec(s: &Vec<char>, max: u64) -> (r: Option<u64>)
    requires
        max >= 9,
    ensures
        r matches Some(v) ==> parse_unsigned(s@, max as int) == Some(v as int),
        r is None ==> parse_unsigned(s@, max as int) is None,
{
    let start: usize = if s.len() > 0 && s[0] == '+' { 1 } else { 0 };
    let ghost d = if s@.len() > 0 && s@[0] == '+' { s@.drop_first() } else { s@ };
    assert(d =~= s@.subrange(start as int, s@.len() as int));
    if start >= s.len() {
        return None;
    }
    let mut value: u64 = 0;
    let mut i = start;
    while i < s.len()
        invariant
            start <= i <= s.len(),
            max >= 9,
            d == s@.subrange(start as int, s@.len() as int),
            d == (if s@.len() > 0 && s@[0] == '+' { s@.drop_first() } else { s@ }),
            value as int == digits_value(s@.subrange(start as int, i as int)),
            value <= max,
            all_digits(s@.subrange(start as int, i as int)),
        decreases s.len() - i,
    {
        let c = s[i];
        if c < '0' || c > '9' {
            assert(d[i - start] == c);
            assert(!('0' <= d[i - start] && d[i - start] <= '9'));
            assert(!all_digits(d));
            return None;
        }
        let digit = (c as u32 - '0' as u32) as u64;
        let ghost prefix = s@.subrange(start as int, i + 1);
        assert(prefix.drop_last() =~= s@.subrange(start as int, i as int));
        assert(all_digits(prefix));
        if value > (max - digit) / 10 {
            proof {
                assert(digits_value(prefix) == value * 10 + digit);
                assert(value * 10 + digit > max) by (nonlinear_arith)
                    requires
                        value > (max - digit) / 10,
                        digit <= 9,
                        digit <= max,
                ;
                if all_digits(d) {
                    lemma_digits_value_prefix(d, i + 1 - start);
                    assert(d.subrange(0, i + 1 - start) =~= prefix);
                }
            }
            return None;
        }
        proof {
            assert(value * 10 + digit <= max) by (nonlinear_arith)
                requires
                    value <= (max - digit) / 10,
                    digit <= max,
            ;
        }
        value = value * 10 + digit;
        i = i + 1;
    }
    assert(d =~= s@.subrange(start as int, i as int));
    Some(value)
}

/// `str::parse::<u32>`.
pub fn parse_u32(s: &str) -> (r: Option<u32>)
    ensures
        r matches Some(v) ==> parse_unsigned(s@, u32::MAX as int) == Some(v as int),
        r is None ==> parse_unsigned(s@, u32::MAX as int) is None,
{
    let v = chars_of(s);
    match parse_unsigned_vec(&v, u32::MAX as u64) {
        Some(x) => Some(x as u32),
        None => None,
    }
}

/// `s` equals the literal `lit`.
pub fn vec_is(v: &Vec<char>, lit: &str) -> (r: bool)
    ensures
        r == (v@ == lit@),
{
    let l = chars_of(lit);
    seq_eq(v, &l)
}

/// `s` starts with the literal `lit`.
pub fn vec_starts(v: &Vec<char>, lit: &str) -> (r: bool)
    ensures
        r == starts_with(v@, lit@),
{
    let l = chars_of(lit);
    occurs_at_exec(v, &l, 0)
}

/// `s` ends with the literal `lit`.
pub fn vec_ends(v: &Vec<char>, lit: &str) -> (r: bool)
    ensures
        r == ends_with(v@, lit@),
{
    let l = chars_of(lit);
    if l.len() > v.len() {
        return false;
    }
    occurs_at_exec(v, &l, v.len() - l.len())
}

/// `s` contains the literal `lit`.
pub fn vec_has(v: &Vec<char>, lit: &str) -> (r: bool)
    ensures
        r == contains(v@, lit@),
{
    let l = chars_of(lit);
    contains_vec(v, &l)
}

/// Strict lexicographic comparison (`String`'s `<`).
pub fn lex_lt_vec(a: &Vec<char>, b: &Vec<char>) -> (r: bool)
    ensures
        r == lex_lt(a@, b@),
{
    let mut i: usize = 0;
    assert(a@.subrange(0, a.len() as int) =~= a@);
    assert(b@.subrange(0, b.len() as int) =~= b@);
    while i < a.len() && i < b.len()
        invariant
            i <= a.len(),
            i <= b.len(),
            lex_lt(a@, b@) == lex_lt(a@.subrange(i as int, a.len() as int), b@.subrange(i as int, b.len() as int)),
        decreases a.len() - i,
    {
        proof {
            let x = a@.subrange(i as int, a.len() as int);
            let y = b@.subrange(i as int, b.len() as int);
            assert(x.drop_first() =~= a@.subrange(i + 1, a.len() as int));
            assert(y.drop_first() =~= b@.subrange(i + 1, b.len() as int));
        }
        if a[i] != b[i] {
            return a[i] < b[i];
        }
        i = i + 1;
    }
    i == a.len() && i < b.len()
}

/// `str::split(sep)` for a one-character separator, owned pieces.
pub fn split_char_str(s: &str, sep: char) -> (r: Vec<String>)
    ensures
        r@.len() == split_char(s@, sep).len(),
        forall|i: int| 0 <= i < r@.len() ==> (#[trigger] r@[i])@ == split_char(s@, sep)[i],
{
    let v = chars_of(s);
    let mut out: Vec<String> = Vec::new();
    let mut start: usize = 0;
    let ghost mut views: Seq<Seq<char>> = Seq::empty();
    assert(v@.subrange(0, v.len() as int) =~= v@);
    loop
        invariant_except_break
            v@ == s@,
            start <= v.len(),
            out@.len() == views.len(),
            forall|i: int| 0 <= i < out@.len() ==> (#[trigger] out@[i])@ == views[i],
            split_char(s@, sep) == views + split_char(
                v@.subrange(start as int, v.len() as int),
                sep,
            ),
        ensures
            out@.len() == views.len(),
            forall|i: int| 0 <= i < out@.len() ==> (#[trigger] out@[i])@ == views[i],
            split_char(s@, sep) == views,
        decreases v.len() - start,
    {
        let ghost rest = v@.subrange(start as int, v.len() as int);
        let found = find_char_vec(&v, sep, start);
        proof {
            lemma_find_char_from(v@, sep, start as int);
            lemma_find_char_from(rest, sep, 0);
        }
        match found {
            Some(i) => {
                proof {
                    assert(find_char_from(rest, sep, 0) == Some(i - start)) by {
                        assert(rest[i - start] == v@[i as int]);
                        assert forall|j: int| 0 <= j < i - start implies rest[j] != sep by {
                            assert(rest[j] == v@[start + j]);
                        }
                        lemma_find_char_unique(rest, sep, i - start);
                    }
                    assert(rest.subrange(0, i - start) =~= v@.subrange(start as int, i as int));
                    assert(rest.subrange(i - start + 1, rest.len() as int) =~= v@.subrange(
                        i + 1,
                        v.len() as int,
                    ));
                }
                let piece = string_from_range(&v, start, i);
                proof {
                    views = views.push(piece@);
                }
                out.push(piece);
                start = i + 1;
            },
            None => {
                proof {
                    assert(find_char_from(rest, sep, 0) is None) by {
                        assert forall|j: int| 0 <= j < rest.len() implies rest[j] != sep by {
                            assert(rest[j] == v@[start + j]);
                        }
                        lemma_find_char_none(rest, sep);
                    }
                }
                let piece = string_from_range(&v, start, v.len());
                proof {
                    views = views.push(piece@);
                }
                out.push(piece);
                break;
            },
        }
    }
    out
}

proof fn lemma_find_char_unique(s: Seq<char>, c: char, i: int)
    requires
        0 <= i < s.len(),
        s[i] == c,
        forall|j: int| 0 <= j < i ==> s[j] != c,
    ensures
        find_char_from(s, c, 0) == Some(i),
{
    lemma_find_char_from(s, c, 0);
}

proof fn lemma_find_char_none(s: Seq<char>, c: char)
    requires
        forall|j: int| 0 <= j < s.len() ==> s[j] != c,
    ensures
        find_char_from(s, c, 0) is None,
{
    lemma_find_char_from(s, c, 0);
}

/// The decimal digits of a natural number.
pub open spec fn nat_digits(n: nat) -> Seq<char>
    decreases n,
{
    if n < 10 {
        seq![(('0' as int) + n) as char]
    } else {
        nat_digits(n / 10) + seq![(('0' as int) + (n % 10)) as char]
    }
}

/// The decimal text of an integer, as `{}` prints it.
pub open spec fn int_text(n: int) -> Seq<char> {
    if n < 0 {
        seq!['-'] + nat_digits((-n) as nat)
    } else {
        nat_digits(n as nat)
    }
}

fn digit_char(d: u128) -> (c: char)
    requires
        d < 10,
    ensures
        c == (('0' as int) + d) as char,
{
    let b: u8 = d as u8;
    (b + 48u8) as char
}

/// The decimal text of a natural number.
pub fn nat_text(n: u128) -> (r: String)
    ensures
        r@ == nat_digits(n as nat),
{
    let mut digits: Vec<char> = Vec::new();
    let mut m = n;
    let ghost mut tail: Seq<char> = Seq::empty();
    // digits holds the reversed text of the low part already consumed
    while m >= 10
        invariant
            nat_digits(n as nat) == nat_digits(m as nat) + tail,
            digits@ == tail.reverse(),
        decreases m,
    {
        let d = m % 10;
        let c = digit_char(d);
        proof {
            assert(nat_digits(m as nat) == nat_digits((m / 10) as nat) + seq![c]);
            assert(nat_digits(n as nat) =~= nat_digits((m / 10) as nat) + (seq![c] + tail));
            assert((seq![c] + tail).reverse() =~= tail.reverse().push(c));
            tail = seq![c] + tail;
        }
        digits.push(c);
        m = m / 10;
    }
    let c = digit_char(m);
    proof {
        assert(nat_digits(m as nat) == seq![c]);
        assert(nat_digits(n as nat) =~= seq![c] + tail);
        assert((seq![c] + tail).reverse() =~= tail.reverse().push(c));
        tail = seq![c] + tail;
    }
    digits.push(c);
    let mut out: Vec<char> = Vec::new();
    let mut i = digits.len();
    while i > 0
        invariant
            i <= digits.len(),
            digits@ == tail.reverse(),
            out@ == tail.subrange(0, (digits.len() - i) as int),
        decreases i,
    {
        i = i - 1;
        proof {
            assert(digits@[i as int] == tail[(digits.len() - 1 - i) as int]);
        }
        out.push(digits[i]);
        assert(out@ =~= tail.subrange(0, (digits.len() - i) as int));
    }
    assert(out@ =~= tail);
    string_from_chars(out.as_slice())
}

/// The decimal text of an integer.
pub fn int_text_exec(n: i128) -> (r: String)
    ensures
        r@ == int_text(n as int),
{
    if n < 0 {
        let m: u128 = if n == i128::MIN {
            (i128::MAX as u128) + 1
        } else {
            (-n) as u128
        };
        let digits = nat_text(m);
        let sign = string_from_chars(&['-']);
        proof {
            assert(sign@ =~= seq!['-']);
        }
        concat2(sign.as_str(), digits.as_str())
    } else {
        nat_text(n as u128)
    }
}

/// The concatenation of a sequence of texts.
pub open spec fn concat_all(parts: Seq<Seq<char>>) -> Seq<char>
    decreases parts.len(),
{
    if parts.len() == 0 {
        Seq::empty()
    } else {
        concat_all(parts.drop_last()) + parts.last()
    }
}

/// The texts of a slice of string slices.
pub open spec fn strs_view(parts: Seq<&str>) -> Seq<Seq<char>> {
    parts.map_values(|p: &str| p@)
}

/// The concatenation of the given texts.
pub fn join_all(parts: &[&str]) -> (r: String)
    ensures
        r@ == concat_all(strs_view(parts@)),
{
    let mut r = String::new();
    let mut i: usize = 0;
    while i < parts.len()
        invariant
            i <= parts@.len(),
            r@ == concat_all(strs_view(parts@.subrange(0, i as int))),
        decreases parts.len() - i,
    {
        r.append(parts[i]);
        proof {
            let pre = strs_view(parts@.subrange(0, i + 1));
            assert(pre.drop_last() =~= strs_view(parts@.subrange(0, i as int)));
            assert(pre.last() == parts@[i as int]@);
        }
        i = i + 1;
    }
    assert(parts@.subrange(0, parts@.len() as int) =~= parts@);
    r
}

/// The texts joined with a separator (`[T]::join`).
pub open spec fn join_with(parts: Seq<Seq<char>>, sep: Seq<char>) -> Seq<char>
    decreases parts.len(),
{
    if parts.len() == 0 {
        Seq::empty()
    } else if parts.len() == 1 {
        parts[0]
    } else {
        join_with(parts.drop_last(), sep) + sep + parts.last()
    }
}

/// Joins strings with a separator.
pub fn join_strings(parts: &Vec<String>, sep: &str) -> (r: String)
    ensures
        r@ == join_with(parts@.map_values(|p: String| p@), sep@),
{
    let ghost ps = parts@.map_values(|p: String| p@);
    let mut r = String::new();
    let mut i: usize = 0;
    while i < parts.len()
        invariant
            i <= parts@.len(),
            ps == parts@.map_values(|p: String| p@),
            ps.len() == parts@.len(),
            r@ == join_with(ps.subrange(0, i as int), sep@),
        decreases parts.len() - i,
    {
        proof {
            let pre = ps.subrange(0, i + 1);
            assert(pre.drop_last() =~= ps.subrange(0, i as int));
            assert(pre.last() == parts@[i as int]@);
        }
        if i > 0 {
            r.append(sep);
        } else {
            assert(ps.subrange(0, 1) =~= seq![ps[0]]);
        }
        r.append(parts[i].as_str());
        i = i + 1;
    }
    assert(ps.subrange(0, parts@.len() as int) =~= ps);
    r
}


/// `lex_lt` is asymmetric.
pub proof fn lemma_lex_lt_asym(a: Seq<char>, b: Seq<char>)
    ensures
        !(lex_lt(a, b) && lex_lt(b, a)),
    decreases a.len(),
{
    if a.len() > 0 && b.len() > 0 && a[0] == b[0] {
        lemma_lex_lt_asym(a.drop_first(), b.drop_first());
    }
}

/// `lex_lt` is transitive.
pub proof fn lemma_lex_lt_trans(a: Seq<char>, b: Seq<char>, c: Seq<char>)
    requires
        lex_lt(a, b),
        lex_lt(b, c),
    ensures
        lex_lt(a, c),
    decreases a.len(),
{
    if a.len() > 0 && a[0] == b[0] && b[0] == c[0] {
        lemma_lex_lt_trans(a.drop_first(), b.drop_first(), c.drop_first());
    }
}


/// The first character left by `trim_start` is not whitespace.
pub proof fn lemma_trim_start_head(s: Seq<char>)
    ensures
        trim_start(s).len() > 0 ==> !is_ws(trim_start(s)[0]),
    decreases s.len(),
{
    if s.len() > 0 && is_ws(s[0]) {
        lemma_trim_start_head(s.drop_first());
    }
}

/// The last character left by `trim_end` is not whitespace.
pub proof fn lemma_trim_end_last(s: Seq<char>)
    ensures
        trim_end(s).len() > 0 ==> !is_ws(trim_end(s).last()),
    decreases s.len(),
{
    if s.len() > 0 && is_ws(s.last()) {
        lemma_trim_end_last(s.drop_last());
    }
}

/// `trim` leaves a text that neither starts nor ends with whitespace.
pub proof fn lemma_trim_ends(s: Seq<char>)
    ensures
        trim(s).len() > 0 ==> !is_ws(trim(s)[0]) && !is_ws(trim(s).last()),
{
    let a = trim_start(s);
    lemma_trim_start_head(s);
    lemma_trim_end_is_prefix(a);
    lemma_trim_end_last(a);
    if trim(s).len() > 0 {
        assert(trim(s)[0] == a[0]);
    }
}

/// A text that neither starts nor ends with whitespace is its own trim.
pub proof fn lemma_trim_fixed(s: Seq<char>)
    requires
        s.len() > 0 ==> !is_ws(s[0]) && !is_ws(s.last()),
    ensures
        trim(s) == s,
{
}

/// Splitting at a separator that does not occur gives the whole text.
pub proof fn lemma_split_char_whole(s: Seq<char>, sep: char)
    requires
        !s.contains(sep),
    ensures
        split_char(s, sep) == seq![s],
{
    lemma_find_char_from(s, sep, 0);
    match find_char_from(s, sep, 0) {
        Some(i) => {
            assert(s[i] == sep);
        },
        None => {},
    }
}

/// Splitting `a`, the separator and `rest`, where `a` holds no separator,
/// gives `a` and then the pieces of `rest`.
pub proof fn lemma_split_char_head(a: Seq<char>, sep: char, rest: Seq<char>)
    requires
        !a.contains(sep),
    ensures
        split_char(a + seq![sep] + rest, sep) == seq![a] + split_char(rest, sep),
{
    let s = a + seq![sep] + rest;
    lemma_find_char_from(s, sep, 0);
    assert(s[a.len() as int] == sep);
    match find_char_from(s, sep, 0) {
        Some(i) => {
            if i < a.len() {
                assert(s[i] == a[i]);
            }
            assert(i == a.len());
        },
        None => {},
    }
    assert(s.subrange(0, a.len() as int) =~= a);
    assert(s.subrange(a.len() as int + 1, s.len() as int) =~= rest);
}

} // verus!
