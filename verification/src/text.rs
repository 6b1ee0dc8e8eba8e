//! Character-level text handling shared by the parsers: whitespace, trimming,
//! substring search, whitespace-separated words and lines, all stated over the
//! sequence of characters and computed on slices of `char`.

use vstd::prelude::*;
use vstd::slice::slice_subrange;

verus! {

/// The characters of `s`, in order.
pub fn chars_of(s: &str) -> (v: Vec<char>)
    ensures
        v@ == s@,
{
    let mut v: Vec<char> = Vec::new();
    for c in it: s.chars()
        invariant
            v@ == it.seq().take(it.index() as int),
    {
        v.push(c);
    }
    v
}

/// A `String` holding exactly the characters of `chars`.
/// Calls `String::from_iter`; the contract claims that the string it builds
/// holds the given characters in the given order.
#[verifier::external_body]
pub(crate) fn string_from_chars(chars: &[char]) -> (s: String)
    ensures
        s@ == chars@,
{
    String::from_iter(chars.iter())
}

/// An owned copy of `s`.
pub fn owned(s: &str) -> (r: String)
    ensures
        r@ == s@,
{
    string_from_chars(chars_of(s).as_slice())
}

/// Appends the characters of `s` to `v`.
pub fn push_str(v: &mut Vec<char>, s: &str)
    ensures
        final(v)@ == old(v)@ + s@,
{
    let c = chars_of(s);
    push_chars(v, c.as_slice());
}

/// Appends `c` to `v`.
pub fn push_chars(v: &mut Vec<char>, c: &[char])
    ensures
        final(v)@ == old(v)@ + c@,
{
    let ghost head = v@;
    let mut i: usize = 0;
    while i < c.len()
        invariant
            i <= c@.len(),
            v@ == head + c@.take(i as int),
        decreases c@.len() - i,
    {
        v.push(c[i]);
        assert(c@.take(i + 1) =~= c@.take(i as int).push(c@[i as int]));
        i = i + 1;
    }
    assert(c@.take(i as int) =~= c@);
}

/// The code point of `c`.
pub fn char_code(c: char) -> (u: u32)
    ensures
        u as int == c as int,
{
    c as u32
}

/// Unicode `White_Space`: the characters that `char::is_whitespace` accepts.
pub open spec fn is_whitespace(c: char) -> bool {
    ||| ('\t' <= c && c <= '\r')
    ||| c == ' '
    ||| c == '\u{85}'
    ||| c == '\u{a0}'
    ||| c == '\u{1680}'
    ||| ('\u{2000}' <= c && c <= '\u{200a}')
    ||| c == '\u{2028}'
    ||| c == '\u{2029}'
    ||| c == '\u{202f}'
    ||| c == '\u{205f}'
    ||| c == '\u{3000}'
}

pub fn is_whitespace_char(c: char) -> (b: bool)
    ensures
        b == is_whitespace(c),
{
    ('\t' <= c && c <= '\r') || c == ' ' || c == '\u{85}' || c == '\u{a0}' || c == '\u{1680}'
        || ('\u{2000}' <= c && c <= '\u{200a}') || c == '\u{2028}' || c == '\u{2029}'
        || c == '\u{202f}' || c == '\u{205f}' || c == '\u{3000}'
}

pub open spec fn trim_start(s: Seq<char>) -> Seq<char>
    decreases s.len(),
{
    if s.len() > 0 && is_whitespace(s[0]) {
        trim_start(s.drop_first())
    } else {
        s
    }
}

pub open spec fn trim_end(s: Seq<char>) -> Seq<char>
    decreases s.len(),
{
    if s.len() > 0 && is_whitespace(s.last()) {
        trim_end(s.drop_last())
    } else {
        s
    }
}

/// `s` without leading and trailing whitespace.
pub open spec fn trim(s: Seq<char>) -> Seq<char> {
    trim_end(trim_start(s))
}

/// `s` without leading and trailing whitespace.
pub fn trim_chars(s: &[char]) -> (t: &[char])
    ensures
        t@ == trim(s@),
{
    let len = s.len();
    let mut a: usize = 0;
    assert(s@.subrange(0, len as int) =~= s@);
    while a < len && is_whitespace_char(s[a])
        invariant
            a <= len == s@.len(),
            trim_start(s@) == trim_start(s@.subrange(a as int, len as int)),
        decreases len - a,
    {
        assert(s@.subrange(a as int, len as int).drop_first() =~= s@.subrange(a + 1, len as int));
        a = a + 1;
    }
    let mut b: usize = len;
    while b > a && is_whitespace_char(s[b - 1])
        invariant
            a <= b <= len == s@.len(),
            trim(s@) == trim_end(s@.subrange(a as int, b as int)),
        decreases b,
    {
        assert(s@.subrange(a as int, b as int).drop_last() =~= s@.subrange(a as int, b - 1));
        b = b - 1;
    }
    slice_subrange(s, a, b)
}

/// `needle` stands in `hay` at position `at`.
pub open spec fn occurs_at(hay: Seq<char>, needle: Seq<char>, at: int) -> bool {
    0 <= at && at + needle.len() <= hay.len() && hay.subrange(at, at + needle.len()) == needle
}

/// The first position below `n` where `needle` stands in `hay`.
pub open spec fn find_before(hay: Seq<char>, needle: Seq<char>, n: int) -> Option<int>
    decreases n,
{
    if n <= 0 {
        None
    } else {
        match find_before(hay, needle, n - 1) {
            Some(k) => Some(k),
            None => if occurs_at(hay, needle, n - 1) {
                Some(n - 1)
            } else {
                None
            },
        }
    }
}

/// The first position where `needle` stands in `hay`, as `str::find` gives it.
pub open spec fn find(hay: Seq<char>, needle: Seq<char>) -> Option<int> {
    find_before(hay, needle, hay.len() + 1int)
}

pub proof fn lemma_find_before_bounds(hay: Seq<char>, needle: Seq<char>, n: int)
    ensures
        find_before(hay, needle, n) matches Some(k) ==> 0 <= k < n && occurs_at(hay, needle, k),
    decreases n,
{
    if n > 0 {
        lemma_find_before_bounds(hay, needle, n - 1);
    }
}

/// Whether `needle` stands in `hay` at `at`.
pub fn occurs_at_exec(hay: &[char], needle: &[char], at: usize) -> (b: bool)
    ensures
        b == occurs_at(hay@, needle@, at as int),
{
    let m = needle.len();
    let len = hay.len();
    if at > len || m > len - at {
        return false;
    }
    let mut j: usize = 0;
    while j < m
        invariant
            j <= m == needle@.len(),
            len == hay@.len(),
            at + m <= len,
            hay@.subrange(at as int, at + j) =~= needle@.take(j as int),
        decreases m - j,
    {
        if hay[at + j] != needle[j] {
            assert(hay@.subrange(at as int, at + m)[j as int] != needle@[j as int]);
            return false;
        }
        assert(hay@.subrange(at as int, at + j + 1) =~= needle@.take(j + 1));
        j = j + 1;
    }
    assert(needle@.take(m as int) =~= needle@);
    true
}

/// The first position where `needle` stands in `hay`.
pub fn find_chars(hay: &[char], needle: &[char]) -> (r: Option<usize>)
    ensures
        r matches Some(k) ==> find(hay@, needle@) == Some(k as int),
        r is None ==> find(hay@, needle@) is None,
{
    let len = hay.len();
    let mut at: usize = 0;
    loop
        invariant
            at <= len,
            len == hay@.len(),
            find_before(hay@, needle@, at as int) is None,
        decreases len - at,
    {
        if occurs_at_exec(hay, needle, at) {
            proof {
                lemma_find_at_first(hay@, needle@, at as int, len + 1);
            }
            return Some(at);
        }
        if at == len {
            return None;
        }
        at = at + 1;
    }
}

/// Once the first occurrence is at `k`, searching further keeps it.
pub proof fn lemma_find_at_first(hay: Seq<char>, needle: Seq<char>, k: int, n: int)
    requires
        0 <= k < n,
        find_before(hay, needle, k) is None,
        occurs_at(hay, needle, k),
    ensures
        find_before(hay, needle, n) == Some(k),
    decreases n,
{
    if n > k + 1 {
        lemma_find_at_first(hay, needle, k, n - 1);
    }
}

/// A whitespace-separated word of `s` begins at `i`.
pub open spec fn is_word_start(s: Seq<char>, i: int) -> bool {
    0 <= i < s.len() && !is_whitespace(s[i]) && (i == 0 || is_whitespace(s[i - 1]))
}

/// Where the run of non-whitespace characters from `i` ends.
pub open spec fn word_end(s: Seq<char>, i: int) -> int
    decreases s.len() - i,
{
    if 0 <= i < s.len() && !is_whitespace(s[i]) {
        word_end(s, i + 1)
    } else {
        i
    }
}

/// The word that begins at `i`.
pub open spec fn word_at(s: Seq<char>, i: int) -> Seq<char> {
    s.subrange(i, word_end(s, i))
}

/// The words of `s` that begin before position `n`, in order.
pub open spec fn words_before(s: Seq<char>, n: int) -> Seq<Seq<char>>
    decreases n,
{
    if n <= 0 {
        Seq::empty()
    } else if is_word_start(s, n - 1) {
        words_before(s, n - 1).push(word_at(s, n - 1))
    } else {
        words_before(s, n - 1)
    }
}

/// The whitespace-separated words of `s`, as `str::split_whitespace` yields them.
pub open spec fn words(s: Seq<char>) -> Seq<Seq<char>> {
    words_before(s, s.len() as int)
}

/// A word: not empty, and without whitespace.
pub open spec fn is_word(w: Seq<char>) -> bool {
    w.len() > 0 && forall|i: int| 0 <= i < w.len() ==> !is_whitespace(#[trigger] w[i])
}

pub proof fn lemma_word_end_bounds(s: Seq<char>, i: int)
    requires
        0 <= i <= s.len(),
    ensures
        i <= word_end(s, i) <= s.len(),
        forall|j: int| i <= j < word_end(s, i) ==> !is_whitespace(#[trigger] s[j]),
    decreases s.len() - i,
{
    if i < s.len() && !is_whitespace(s[i]) {
        lemma_word_end_bounds(s, i + 1);
    }
}

/// Every word that `words` yields is a word.
pub proof fn lemma_words_are_words(s: Seq<char>, n: int)
    requires
        n <= s.len(),
    ensures
        forall|k: int| 0 <= k < words_before(s, n).len() ==> is_word(#[trigger] words_before(s, n)[k]),
    decreases n,
{
    if n > 0 {
        lemma_words_are_words(s, n - 1);
        if is_word_start(s, n - 1) {
            lemma_word_end_bounds(s, n - 1);
            let w = word_at(s, n - 1);
            assert(w.len() > 0) by {
                assert(word_end(s, n - 1) == word_end(s, n));
                lemma_word_end_bounds(s, n);
            }
            assert forall|i: int| 0 <= i < w.len() implies !is_whitespace(#[trigger] w[i]) by {
                assert(w[i] == s[n - 1 + i]);
            }
            let prev = words_before(s, n - 1);
            assert forall|k: int| 0 <= k < words_before(s, n).len() implies is_word(
                #[trigger] words_before(s, n)[k],
            ) by {
                if k < prev.len() {
                    assert(words_before(s, n)[k] == prev[k]);
                }
            }
        }
    }
}

/// Every word of `s` is a word.
pub proof fn law_words_are_words(s: Seq<char>)
    ensures
        forall|k: int| 0 <= k < words(s).len() ==> is_word(#[trigger] words(s)[k]),
{
    lemma_words_are_words(s, s.len() as int);
}

/// Text that follows whitespace does not change where the words of what
/// comes before end.
proof fn lemma_word_end_in_prefix(x: Seq<char>, t: Seq<char>, k: int)
    requires
        0 <= k <= x.len(),
        t.len() > 0,
        is_whitespace(t[0]),
    ensures
        word_end(x + t, k) == word_end(x, k),
    decreases x.len() - k,
{
    let s = x + t;
    if k < x.len() {
        assert(s[k] == x[k]);
        if !is_whitespace(x[k]) {
            lemma_word_end_in_prefix(x, t, k + 1);
        }
    } else {
        assert(s[k] == t[0]);
    }
}

/// Text that follows whitespace does not change the words of what comes
/// before.
proof fn lemma_words_in_prefix(x: Seq<char>, t: Seq<char>, n: int)
    requires
        0 <= n <= x.len(),
        t.len() > 0,
        is_whitespace(t[0]),
    ensures
        words_before(x + t, n) == words_before(x, n),
    decreases n,
{
    let s = x + t;
    if n > 0 {
        lemma_words_in_prefix(x, t, n - 1);
        let i = n - 1;
        assert(s[i] == x[i]);
        if i > 0 {
            assert(s[i - 1] == x[i - 1]);
        }
        if is_word_start(x, i) {
            lemma_word_end_in_prefix(x, t, i);
            lemma_word_end_bounds(x, i);
            assert(s.subrange(i, word_end(s, i)) =~= x.subrange(i, word_end(x, i)));
        }
    }
}

proof fn lemma_word_end_to_end(s: Seq<char>, i: int)
    requires
        0 <= i <= s.len(),
        forall|j: int| i <= j < s.len() ==> !is_whitespace(#[trigger] s[j]),
    ensures
        word_end(s, i) == s.len(),
    decreases s.len() - i,
{
    if i < s.len() {
        lemma_word_end_to_end(s, i + 1);
    }
}

proof fn lemma_no_starts_inside_word(s: Seq<char>, from: int, n: int)
    requires
        0 < from <= n <= s.len(),
        forall|j: int| from - 1 <= j < s.len() ==> !is_whitespace(#[trigger] s[j]),
    ensures
        words_before(s, n) == words_before(s, from),
    decreases n,
{
    if n > from {
        lemma_no_starts_inside_word(s, from, n - 1);
        assert(!is_whitespace(s[n - 2]));
    }
}

/// A space and a word appended to a text add that word to its words.
pub proof fn lemma_words_append_word(x: Seq<char>, w: Seq<char>)
    requires
        is_word(w),
    ensures
        words(x + seq![' '] + w) == words(x).push(w),
{
    let t = seq![' '] + w;
    let s = x + t;
    assert(x + seq![' '] + w =~= s);
    let n = x.len() as int;
    assert(t[0] == ' ');
    lemma_words_in_prefix(x, t, n);
    assert(s[n] == ' ');
    assert(words_before(s, n + 1) == words_before(s, n));
    assert forall|j: int| n + 1 <= j < s.len() implies !is_whitespace(#[trigger] s[j]) by {
        assert(s[j] == w[j - n - 1]);
    }
    assert(s[n + 1] == w[0]);
    assert(is_word_start(s, n + 1));
    lemma_word_end_to_end(s, n + 1);
    assert(s.subrange(n + 1, s.len() as int) =~= w);
    assert(words_before(s, n + 2) == words(x).push(w));
    assert forall|j: int| n + 1 <= j < s.len() implies !is_whitespace(#[trigger] s[j]) by {
        assert(s[j] == w[j - n - 1]);
    }
    lemma_no_starts_inside_word(s, n + 2, s.len() as int);
}

/// The end of the run of non-whitespace characters from `i`.
pub fn word_end_exec(s: &[char], i: usize) -> (e: usize)
    requires
        i <= s@.len(),
    ensures
        e as int == word_end(s@, i as int),
        i <= e <= s@.len(),
{
    let len = s.len();
    let mut j = i;
    while j < len && !is_whitespace_char(s[j])
        invariant
            i <= j <= len == s@.len(),
            word_end(s@, i as int) == word_end(s@, j as int),
        decreases len - j,
    {
        j = j + 1;
    }
    j
}

/// The start and end of each whitespace-separated word of `s`, in order.
pub fn word_spans(s: &[char]) -> (spans: Vec<(usize, usize)>)
    ensures
        spans@.len() == words(s@).len(),
        forall|k: int|
            0 <= k < spans@.len() ==> {
                &&& (#[trigger] spans@[k]).0 <= spans@[k].1 <= s@.len()
                &&& s@.subrange(spans@[k].0 as int, spans@[k].1 as int) == words(s@)[k]
            },
{
    let len = s.len();
    let mut spans: Vec<(usize, usize)> = Vec::new();
    let mut i: usize = 0;
    while i < len
        invariant
            i <= len == s@.len(),
            spans@.len() == words_before(s@, i as int).len(),
            forall|k: int|
                0 <= k < spans@.len() ==> {
                    &&& (#[trigger] spans@[k]).0 <= spans@[k].1 <= s@.len()
                    &&& s@.subrange(spans@[k].0 as int, spans@[k].1 as int) == words_before(
                        s@,
                        i as int,
                    )[k]
                },
        decreases len - i,
    {
        let start = i == 0 || is_whitespace_char(s[i - 1]);
        if start && !is_whitespace_char(s[i]) {
            let e = word_end_exec(s, i);
            spans.push((i, e));
        }
        i = i + 1;
    }
    spans
}

/// The whitespace-separated words of `s`, in order.
pub fn words_of(s: &[char]) -> (ws: Vec<String>)
    ensures
        ws@.len() == words(s@).len(),
        forall|k: int| 0 <= k < ws@.len() ==> (#[trigger] ws@[k])@ == words(s@)[k],
{
    let spans = word_spans(s);
    let mut ws: Vec<String> = Vec::new();
    let mut k: usize = 0;
    while k < spans.len()
        invariant
            k <= spans@.len() == words(s@).len(),
            ws@.len() == k,
            forall|q: int|
                0 <= q < spans@.len() ==> {
                    &&& (#[trigger] spans@[q]).0 <= spans@[q].1 <= s@.len()
                    &&& s@.subrange(spans@[q].0 as int, spans@[q].1 as int) == words(s@)[q]
                },
            forall|q: int| 0 <= q < k ==> (#[trigger] ws@[q])@ == words(s@)[q],
        decreases spans@.len() - k,
    {
        let (a, b) = spans[k];
        ws.push(string_from_chars(slice_subrange(s, a, b)));
        k = k + 1;
    }
    ws
}

/// A line of `t` begins at `i`: `t` is split after each `'\n'`, and no line
/// begins at the very end.
pub open spec fn is_line_start(t: Seq<char>, i: int) -> bool {
    0 <= i < t.len() && (i == 0 || t[i - 1] == '\n')
}

/// The position of the `'\n'` that ends the line through `i`, or the end of `t`.
pub open spec fn line_break(t: Seq<char>, i: int) -> int
    decreases t.len() - i,
{
    if 0 <= i < t.len() && t[i] != '\n' {
        line_break(t, i + 1)
    } else {
        i
    }
}

/// Where the content of the line that begins at `i` ends: a `'\r'` just
/// before its `'\n'` is not part of it.
pub open spec fn line_end(t: Seq<char>, i: int) -> int {
    let e = line_break(t, i);
    if e < t.len() && e > i && t[e - 1] == '\r' {
        e - 1
    } else {
        e
    }
}

/// The content of the line that begins at `i`.
pub open spec fn line_at(t: Seq<char>, i: int) -> Seq<char> {
    t.subrange(i, line_end(t, i))
}

/// The lines of `t` that begin before position `n`, in order.
pub open spec fn lines_before(t: Seq<char>, n: int) -> Seq<Seq<char>>
    decreases n,
{
    if n <= 0 {
        Seq::empty()
    } else if is_line_start(t, n - 1) {
        lines_before(t, n - 1).push(line_at(t, n - 1))
    } else {
        lines_before(t, n - 1)
    }
}

/// The lines of `t`, as `str::lines` yields them.
pub open spec fn lines(t: Seq<char>) -> Seq<Seq<char>> {
    lines_before(t, t.len() as int)
}

/// The end of the content of the line that begins at `i`.
pub fn line_end_exec(t: &[char], i: usize) -> (e: usize)
    requires
        i <= t@.len(),
    ensures
        e as int == line_end(t@, i as int),
        i <= e <= t@.len(),
{
    let len = t.len();
    let mut j = i;
    while j < len && t[j] != '\n'
        invariant
            i <= j <= len == t@.len(),
            line_break(t@, i as int) == line_break(t@, j as int),
        decreases len - j,
    {
        j = j + 1;
    }
    if j < len && j > i && t[j - 1] == '\r' {
        j - 1
    } else {
        j
    }
}

/// The start and end of the content of each line of `t`, in order.
pub fn line_spans(t: &[char]) -> (spans: Vec<(usize, usize)>)
    ensures
        spans@.len() == lines(t@).len(),
        forall|k: int|
            0 <= k < spans@.len() ==> {
                &&& (#[trigger] spans@[k]).0 <= spans@[k].1 <= t@.len()
                &&& t@.subrange(spans@[k].0 as int, spans@[k].1 as int) == lines(t@)[k]
            },
{
    let len = t.len();
    let mut spans: Vec<(usize, usize)> = Vec::new();
    let mut i: usize = 0;
    while i < len
        invariant
            i <= len == t@.len(),
            spans@.len() == lines_before(t@, i as int).len(),
            forall|k: int|
                0 <= k < spans@.len() ==> {
                    &&& (#[trigger] spans@[k]).0 <= spans@[k].1 <= t@.len()
                    &&& t@.subrange(spans@[k].0 as int, spans@[k].1 as int) == lines_before(
                        t@,
                        i as int,
                    )[k]
                },
        decreases len - i,
    {
        if i == 0 || t[i - 1] == '\n' {
            let e = line_end_exec(t, i);
            spans.push((i, e));
        }
        i = i + 1;
    }
    spans
}

/// The UTF-16 code units of one character.
pub open spec fn utf16_units(c: char) -> Seq<u16> {
    let v = c as int;
    if v < 0x10000 {
        seq![v as u16]
    } else {
        seq![(0xd800 + (v - 0x10000) / 0x400) as u16, (0xdc00 + (v - 0x10000) % 0x400) as u16]
    }
}

/// The UTF-16 encoding of a sequence of characters.
pub open spec fn utf16(s: Seq<char>) -> Seq<u16>
    decreases s.len(),
{
    if s.len() == 0 {
        Seq::empty()
    } else {
        utf16(s.drop_last()) + utf16_units(s.last())
    }
}

/// `s` in UTF-16, terminated by a 0 unit, as Windows' wide-character
/// functions take text.
pub fn wide(s: &str) -> (w: Vec<u16>)
    ensures
        w@ == utf16(s@).push(0u16),
{
    let c = chars_of(s);
    let mut w: Vec<u16> = Vec::new();
    let mut i: usize = 0;
    while i < c.len()
        invariant
            i <= c@.len(),
            w@ == utf16(c@.take(i as int)),
        decreases c@.len() - i,
    {
        let v: u32 = char_code(c[i]);
        if v < 0x10000 {
            w.push(v as u16);
        } else {
            let x = v - 0x10000;
            w.push((0xd800 + x / 0x400) as u16);
            w.push((0xdc00 + x % 0x400) as u16);
        }
        assert(c@.take(i + 1).drop_last() =~= c@.take(i as int));
        assert(w@ =~= utf16(c@.take(i + 1)));
        i = i + 1;
    }
    assert(c@.take(i as int) =~= c@);
    w.push(0u16);
    w
}

} // verus!
