//! Launch-URL discovery in the server's output, the loopback URLs the
//! launcher builds and reads, and the one line of HTTP it speaks.

use vstd::prelude::*;
use vstd::slice::slice_subrange;
use vstd::utf8::{decode_utf8, valid_utf8};

use crate::number::{
    decimal, is_ascii_digit, lemma_decimal_digits, lemma_parse_decimal, parse_unsigned,
    parse_unsigned_chars, push_decimal,
};
use crate::text::{
    chars_of, find, find_before, find_chars, lemma_find_before_bounds, line_spans, lines, occurs_at,
    occurs_at_exec, string_from_chars, word_spans, words,
};

verus! {

/// What `String::from_utf8_lossy` makes of a sequence of bytes.
pub uninterp spec fn lossy_utf8(bytes: Seq<u8>) -> Seq<char>;

/// Calls `String::from_utf8_lossy`. The contract names its result, and
/// claims what its documentation states: valid UTF-8 is decoded unchanged.
/// What it makes of invalid input is left to the name.
#[verifier::external_body]
pub(crate) fn utf8_lossy(bytes: &[u8]) -> (s: String)
    ensures
        s@ == lossy_utf8(bytes@),
        valid_utf8(bytes@) ==> s@ == decode_utf8(bytes@),
{
    String::from_utf8_lossy(bytes).into_owned()
}

pub open spec fn web_prefix() -> Seq<char> {
    "http://"@
}

pub open spec fn secure_web_prefix() -> Seq<char> {
    "https://"@
}

pub open spec fn loopback_ip_prefix() -> Seq<char> {
    "http://127.0.0.1:"@
}

pub open spec fn localhost_prefix() -> Seq<char> {
    "http://localhost:"@
}

pub open spec fn starts_with(s: Seq<char>, p: Seq<char>) -> bool {
    p.len() <= s.len() && s.take(p.len() as int) == p
}

pub open spec fn contains(s: Seq<char>, p: Seq<char>) -> bool {
    exists|at: int| occurs_at(s, p, at)
}

/// The punctuation that may trail a URL in a sentence.
pub open spec fn is_url_tail(c: char) -> bool {
    c == ')' || c == ',' || c == '.'
}

/// `t` without the trailing punctuation, as `trim_end_matches([')', ',', '.'])`.
pub open spec fn strip_url_tail(t: Seq<char>) -> Seq<char>
    decreases t.len(),
{
    if t.len() > 0 && is_url_tail(t.last()) {
        strip_url_tail(t.drop_last())
    } else {
        t
    }
}

/// Which words count as a launch URL.
pub enum UrlShape {
    /// Any `http://` or `https://` URL.
    Web,
    /// A loopback `http://` URL that carries a `token` query parameter.
    TokenLoopback,
}

pub open spec fn shape_fits(shape: UrlShape, u: Seq<char>) -> bool {
    match shape {
        UrlShape::Web => starts_with(u, web_prefix()) || starts_with(u, secure_web_prefix()),
        UrlShape::TokenLoopback => {
            &&& (starts_with(u, loopback_ip_prefix()) || starts_with(u, localhost_prefix()))
            &&& (contains(u, "?token="@) || contains(u, "&token="@))
        },
    }
}

/// The first of `ws` that, without trailing punctuation, has the shape;
/// that word without its trailing punctuation.
pub open spec fn first_fitting(ws: Seq<Seq<char>>, shape: UrlShape) -> Option<Seq<char>>
    decreases ws.len(),
{
    if ws.len() == 0 {
        None
    } else {
        match first_fitting(ws.drop_last(), shape) {
            Some(u) => Some(u),
            None => if shape_fits(shape, strip_url_tail(ws.last())) {
                Some(strip_url_tail(ws.last()))
            } else {
                None
            },
        }
    }
}

/// The URL that a line announces after `marker`: the first `http(s)://`
/// word after the first occurrence of `marker` in the line.
pub open spec fn marked_url_in_line(line: Seq<char>, marker: Seq<char>) -> Option<Seq<char>> {
    match find(line, marker) {
        Some(at) => first_fitting(words(line.skip(at + marker.len())), UrlShape::Web),
        None => None,
    }
}

/// The URL announced by the first of `ls` that announces one after `marker`.
pub open spec fn first_marked_url(ls: Seq<Seq<char>>, marker: Seq<char>) -> Option<Seq<char>>
    decreases ls.len(),
{
    if ls.len() == 0 {
        None
    } else {
        match first_marked_url(ls.drop_last(), marker) {
            Some(u) => Some(u),
            None => marked_url_in_line(ls.last(), marker),
        }
    }
}

/// The launch URL in a server's output: first the URL announced after a
/// non-empty `marker` on some line, else the first loopback URL that
/// carries a token.
pub open spec fn launch_url_in(text: Seq<char>, marker: Seq<char>) -> Option<Seq<char>> {
    let marked = if marker.len() > 0 {
        first_marked_url(lines(text), marker)
    } else {
        None
    };
    if marked is Some {
        marked
    } else {
        first_fitting(words(text), UrlShape::TokenLoopback)
    }
}

/// Where the output of this run begins in the log: at the length it had
/// before the server was started, or at its end if it has shrunk since.
pub open spec fn scan_start(log_len: nat, from_offset: u64) -> nat {
    if from_offset >= log_len {
        log_len
    } else {
        from_offset as nat
    }
}

pub proof fn lemma_find_none(hay: Seq<char>, needle: Seq<char>, n: int)
    requires
        find_before(hay, needle, n) is None,
    ensures
        forall|at: int| 0 <= at < n ==> !occurs_at(hay, needle, at),
    decreases n,
{
    if n > 0 {
        lemma_find_none(hay, needle, n - 1);
    }
}

/// Output that the log held before this run's server started never affects
/// the launch URL found: two logs that agree from the offset on give the same
/// URL.
pub proof fn law_earlier_output_ignored(log1: Seq<u8>, log2: Seq<u8>, from_offset: u64, marker: Seq<char>)
    requires
        from_offset <= log1.len(),
        from_offset <= log2.len(),
        log1.skip(from_offset as int) == log2.skip(from_offset as int),
    ensures
        launch_url_in(lossy_utf8(log1.skip(scan_start(log1.len(), from_offset) as int)), marker)
            == launch_url_in(lossy_utf8(log2.skip(scan_start(log2.len(), from_offset) as int)), marker),
{
    assert(log1.skip(scan_start(log1.len(), from_offset) as int) =~= log1.skip(from_offset as int));
    assert(log2.skip(scan_start(log2.len(), from_offset) as int) =~= log2.skip(from_offset as int));
}

pub proof fn lemma_strip_url_tail(t: Seq<char>)
    ensures
        strip_url_tail(t).len() <= t.len(),
        strip_url_tail(t) == t.take(strip_url_tail(t).len() as int),
        strip_url_tail(t).len() > 0 ==> !is_url_tail(strip_url_tail(t).last()),
    decreases t.len(),
{
    if t.len() > 0 && is_url_tail(t.last()) {
        lemma_strip_url_tail(t.drop_last());
        assert(t.drop_last().take(strip_url_tail(t).len() as int) =~= t.take(
            strip_url_tail(t).len() as int,
        ));
    } else {
        assert(t.take(t.len() as int) =~= t);
    }
}

/// A word found in a list is one of the words without its trailing
/// punctuation, has the shape, and does not end in `)`, `,` or `.`.
pub proof fn law_found_word_has_no_trailing_punctuation(ws: Seq<Seq<char>>, shape: UrlShape)
    ensures
        first_fitting(ws, shape) matches Some(u) ==> {
            &&& shape_fits(shape, u)
            &&& u.len() > 0
            &&& !is_url_tail(u.last())
            &&& exists|j: int| 0 <= j < ws.len() && u == strip_url_tail(#[trigger] ws[j])
        },
    decreases ws.len(),
{
    if ws.len() > 0 {
        law_found_word_has_no_trailing_punctuation(ws.drop_last(), shape);
        lemma_strip_url_tail(ws.last());
        reveal_strlit("http://");
        reveal_strlit("https://");
        reveal_strlit("http://127.0.0.1:");
        reveal_strlit("http://localhost:");
        match first_fitting(ws.drop_last(), shape) {
            Some(u) => {
                let j = choose|j: int| 0 <= j < ws.drop_last().len() && u == strip_url_tail(
                    #[trigger] ws.drop_last()[j],
                );
                assert(ws[j] == ws.drop_last()[j]);
            },
            None => {
                if shape_fits(shape, strip_url_tail(ws.last())) {
                    assert(ws[ws.len() - 1] == ws.last());
                }
            },
        }
    }
}

/// The launch URL found in a server's output, by either shape, never ends in
/// `)`, `,` or `.`: it is a word of the output (of the marked line, or of the
/// whole output) without its trailing punctuation.
pub proof fn law_launch_url_has_no_trailing_punctuation(text: Seq<char>, marker: Seq<char>)
    ensures
        launch_url_in(text, marker) matches Some(u) ==> u.len() > 0 && !is_url_tail(u.last()),
        (marker.len() == 0 || first_marked_url(lines(text), marker) is None) ==> launch_url_in(
            text,
            marker,
        ) == first_fitting(words(text), UrlShape::TokenLoopback),
        first_fitting(words(text), UrlShape::TokenLoopback) matches Some(u) ==> exists|j: int|
            0 <= j < words(text).len() && u == strip_url_tail(#[trigger] words(text)[j]),
{
    law_found_word_has_no_trailing_punctuation(words(text), UrlShape::TokenLoopback);
    lemma_marked_url_stripped(lines(text), marker);
}

proof fn lemma_marked_url_stripped(ls: Seq<Seq<char>>, marker: Seq<char>)
    ensures
        first_marked_url(ls, marker) matches Some(u) ==> u.len() > 0 && !is_url_tail(u.last()),
    decreases ls.len(),
{
    if ls.len() > 0 {
        lemma_marked_url_stripped(ls.drop_last(), marker);
        let line = ls.last();
        match find(line, marker) {
            Some(at) => {
                law_found_word_has_no_trailing_punctuation(
                    words(line.skip(at + marker.len())),
                    UrlShape::Web,
                );
            },
            None => {},
        }
    }
}

/// Whether `s` begins with `p`.
pub fn starts_with_chars(s: &[char], p: &[char]) -> (b: bool)
    ensures
        b == starts_with(s@, p@),
{
    let b = occurs_at_exec(s, p, 0);
    proof {
        if p@.len() <= s@.len() {
            assert(s@.subrange(0, p@.len() as int) =~= s@.take(p@.len() as int));
        }
    }
    b
}

/// Whether `p` stands somewhere in `s`.
pub fn contains_chars(s: &[char], p: &[char]) -> (b: bool)
    ensures
        b == contains(s@, p@),
{
    match find_chars(s, p) {
        Some(k) => {
            proof {
                lemma_find_before_bounds(s@, p@, s@.len() + 1int);
            }
            true
        },
        None => {
            proof {
                lemma_find_none(s@, p@, s@.len() + 1int);
                assert forall|at: int| !occurs_at(s@, p@, at) by {
                    if 0 <= at < s@.len() + 1 {
                    }
                }
            }
            false
        },
    }
}

/// The end of `s[..end]` without trailing `)`, `,` and `.`.
fn strip_url_tail_end(s: &[char]) -> (e: usize)
    ensures
        e <= s@.len(),
        s@.subrange(0, e as int) == strip_url_tail(s@),
{
    let mut e = s.len();
    assert(s@.subrange(0, e as int) =~= s@);
    while e > 0 && (s[e - 1] == ')' || s[e - 1] == ',' || s[e - 1] == '.')
        invariant
            e <= s@.len(),
            strip_url_tail(s@) == strip_url_tail(s@.subrange(0, e as int)),
        decreases e,
    {
        assert(s@.subrange(0, e as int).drop_last() =~= s@.subrange(0, e - 1));
        e = e - 1;
    }
    e
}

fn shape_fits_exec(shape: &UrlShape, u: &[char]) -> (b: bool)
    ensures
        b == shape_fits(*shape, u@),
{
    match shape {
        UrlShape::Web => {
            let http = chars_of("http://");
            let https = chars_of("https://");
            starts_with_chars(u, http.as_slice()) || starts_with_chars(u, https.as_slice())
        },
        UrlShape::TokenLoopback => {
            let ip = chars_of("http://127.0.0.1:");
            let local = chars_of("http://localhost:");
            let q = chars_of("?token=");
            let amp = chars_of("&token=");
            (starts_with_chars(u, ip.as_slice()) || starts_with_chars(u, local.as_slice()))
                && (contains_chars(u, q.as_slice()) || contains_chars(u, amp.as_slice()))
        },
    }
}

/// The first word of `s` that fits the shape, without trailing punctuation.
fn first_fitting_word(s: &[char], shape: &UrlShape) -> (r: Option<String>)
    ensures
        r matches Some(u) ==> first_fitting(words(s@), *shape) == Some(u@),
        r is None ==> first_fitting(words(s@), *shape) is None,
{
    let spans = word_spans(s);
    let ghost ws = words(s@);
    let mut k: usize = 0;
    assert(ws.take(0) =~= Seq::<Seq<char>>::empty());
    while k < spans.len()
        invariant
            k <= spans@.len() == ws.len(),
            ws == words(s@),
            forall|q: int|
                0 <= q < spans@.len() ==> {
                    &&& (#[trigger] spans@[q]).0 <= spans@[q].1 <= s@.len()
                    &&& s@.subrange(spans@[q].0 as int, spans@[q].1 as int) == ws[q]
                },
            first_fitting(ws.take(k as int), *shape) is None,
        decreases spans@.len() - k,
    {
        let (a, b) = spans[k];
        let w = slice_subrange(s, a, b);
        let e = strip_url_tail_end(w);
        let u = slice_subrange(w, 0, e);
        assert(ws.take(k + 1).drop_last() =~= ws.take(k as int));
        assert(ws.take(k + 1).last() == ws[k as int]);
        if shape_fits_exec(shape, u) {
            proof {
                lemma_first_fitting_prefix(ws, *shape, k + 1);
            }
            return Some(string_from_chars(u));
        }
        k = k + 1;
    }
    assert(ws.take(k as int) =~= ws);
    None
}

/// A match found in a prefix of the words stays the first match.
pub proof fn lemma_first_fitting_prefix(ws: Seq<Seq<char>>, shape: UrlShape, n: int)
    requires
        0 <= n <= ws.len(),
        first_fitting(ws.take(n), shape) is Some,
    ensures
        first_fitting(ws, shape) == first_fitting(ws.take(n), shape),
    decreases ws.len(),
{
    if n < ws.len() {
        assert(ws.drop_last().take(n) =~= ws.take(n));
        lemma_first_fitting_prefix(ws.drop_last(), shape, n);
    } else {
        assert(ws.take(n) =~= ws);
    }
}

/// A match found in a prefix of the lines stays the first match.
pub proof fn lemma_first_marked_prefix(ls: Seq<Seq<char>>, marker: Seq<char>, n: int)
    requires
        0 <= n <= ls.len(),
        first_marked_url(ls.take(n), marker) is Some,
    ensures
        first_marked_url(ls, marker) == first_marked_url(ls.take(n), marker),
    decreases ls.len(),
{
    if n < ls.len() {
        assert(ls.drop_last().take(n) =~= ls.take(n));
        lemma_first_marked_prefix(ls.drop_last(), marker, n);
    } else {
        assert(ls.take(n) =~= ls);
    }
}

/// The URL that `line` announces after `marker`.
fn marked_url_in_line_exec(line: &[char], marker: &[char]) -> (r: Option<String>)
    ensures
        r matches Some(u) ==> marked_url_in_line(line@, marker@) == Some(u@),
        r is None ==> marked_url_in_line(line@, marker@) is None,
{
    match find_chars(line, marker) {
        Some(at) => {
            proof {
                lemma_find_before_bounds(line@, marker@, line@.len() + 1int);
            }
            let ll = line.len();
            assert(at + marker@.len() <= ll);
            let rest = slice_subrange(line, at + marker.len(), ll);
            assert(rest@ =~= line@.skip(at + marker@.len()));
            first_fitting_word(rest, &UrlShape::Web)
        },
        None => None,
    }
}

/// The launch URL in `text`.
pub fn launch_url_in_chars(text: &[char], marker: &[char]) -> (r: Option<String>)
    ensures
        r matches Some(u) ==> launch_url_in(text@, marker@) == Some(u@),
        r is None ==> launch_url_in(text@, marker@) is None,
{
    if marker.len() > 0 {
        let spans = line_spans(text);
        let ghost ls = lines(text@);
        let mut k: usize = 0;
        assert(ls.take(0) =~= Seq::<Seq<char>>::empty());
        while k < spans.len()
            invariant
                k <= spans@.len() == ls.len(),
                ls == lines(text@),
                marker@.len() > 0,
                forall|q: int|
                    0 <= q < spans@.len() ==> {
                        &&& (#[trigger] spans@[q]).0 <= spans@[q].1 <= text@.len()
                        &&& text@.subrange(spans@[q].0 as int, spans@[q].1 as int) == ls[q]
                    },
                first_marked_url(ls.take(k as int), marker@) is None,
            decreases spans@.len() - k,
        {
            let (a, b) = spans[k];
            let line = slice_subrange(text, a, b);
            assert(ls.take(k + 1).drop_last() =~= ls.take(k as int));
            assert(ls.take(k + 1).last() == ls[k as int]);
            let found = marked_url_in_line_exec(line, marker);
            if found.is_some() {
                proof {
                    assert(line@ == ls[k as int]);
                    assert(first_marked_url(ls.take(k + 1), marker@) == marked_url_in_line(
                        ls[k as int],
                        marker@,
                    ));
                    lemma_first_marked_prefix(ls, marker@, k + 1);
                    assert(first_marked_url(lines(text@), marker@) is Some);
                    assert(marker@.len() > 0);
                    assert(launch_url_in(text@, marker@) == first_marked_url(lines(text@), marker@));
                }
                return found;
            }
            k = k + 1;
        }
        assert(ls.take(k as int) =~= ls);
    }
    first_fitting_word(text, &UrlShape::TokenLoopback)
}

/// The launch URL that the server printed in this run: the part of its log
/// from `from_offset` on (the log's length before the server was started),
/// decoded as `String::from_utf8_lossy` does, is searched first for the URL
/// announced after `marker`, then for a loopback URL that carries a token.
/// Output of earlier runs, before `from_offset`, is never read.
pub fn find_launch_url(log: &[u8], from_offset: u64, marker: &str) -> (r: Option<String>)
    ensures
        r matches Some(u) ==> launch_url_in(
            lossy_utf8(log@.skip(scan_start(log@.len(), from_offset) as int)),
            marker@,
        ) == Some(u@),
        r is None ==> launch_url_in(
            lossy_utf8(log@.skip(scan_start(log@.len(), from_offset) as int)),
            marker@,
        ) is None,
{
    let len = log.len();
    let start: usize = if from_offset >= len as u64 {
        len
    } else {
        from_offset as usize
    };
    let tail = slice_subrange(log, start, len);
    assert(tail@ =~= log@.skip(scan_start(log@.len(), from_offset) as int));
    let text = utf8_lossy(tail);
    let chars = chars_of(text.as_str());
    let m = chars_of(marker);
    launch_url_in_chars(chars.as_slice(), m.as_slice())
}

/// Where the path or query of a URL begins in `s`, from position `i`: at the
/// first `/` or `?`, or at the end.
pub open spec fn path_start(s: Seq<char>, i: int) -> int
    decreases s.len() - i,
{
    if 0 <= i < s.len() && s[i] != '/' && s[i] != '?' {
        path_start(s, i + 1)
    } else {
        i
    }
}

/// The port of a loopback `http://` URL: the text between the host's `:`
/// and the first `/` or `?`, read as a `u16`.
pub open spec fn url_port_of(url: Seq<char>) -> Option<nat> {
    if starts_with(url, loopback_ip_prefix()) {
        let rest = url.skip(loopback_ip_prefix().len() as int);
        parse_unsigned(rest.take(path_start(rest, 0)), 65535)
    } else if starts_with(url, localhost_prefix()) {
        let rest = url.skip(localhost_prefix().len() as int);
        parse_unsigned(rest.take(path_start(rest, 0)), 65535)
    } else {
        None
    }
}

/// The bare loopback URL of a port, without any token.
pub open spec fn bare_url(port: nat) -> Seq<char> {
    loopback_ip_prefix() + decimal(port) + "/"@
}

/// The port of an `http://127.0.0.1:<port>/...` or
/// `http://localhost:<port>/...` URL; `None` for any other URL or when the
/// port is not a `u16` numeral.
pub fn url_port(url: &str) -> (r: Option<u16>)
    ensures
        r matches Some(p) ==> url_port_of(url@) == Some(p as nat),
        r is None ==> url_port_of(url@) is None,
{
    let u = chars_of(url);
    let ip = chars_of("http://127.0.0.1:");
    let local = chars_of("http://localhost:");
    let skip = if starts_with_chars(u.as_slice(), ip.as_slice()) {
        ip.len()
    } else if starts_with_chars(u.as_slice(), local.as_slice()) {
        local.len()
    } else {
        return None;
    };
    let len = u.len();
    let rest = slice_subrange(u.as_slice(), skip, len);
    let mut e: usize = 0;
    while e < rest.len() && rest[e] != '/' && rest[e] != '?'
        invariant
            e <= rest@.len(),
            path_start(rest@, 0) == path_start(rest@, e as int),
        decreases rest@.len() - e,
    {
        e = e + 1;
    }
    let digits = slice_subrange(rest, 0, e);
    assert(digits@ =~= rest@.take(path_start(rest@, 0)));
    match parse_unsigned_chars(digits, 65535) {
        Some(p) => Some(p as u16),
        None => None,
    }
}

/// The bare loopback URL of `port`: `http://127.0.0.1:<port>/`.
pub fn url_for(port: u16) -> (s: String)
    ensures
        s@ == bare_url(port as nat),
{
    let mut v = chars_of("http://127.0.0.1:");
    push_decimal(&mut v, port as u128);
    v.push('/');
    proof {
        reveal_strlit("/");
        assert(v@ =~= bare_url(port as nat));
    }
    string_from_chars(v.as_slice())
}

pub proof fn lemma_path_start_skips(d: Seq<char>, t: Seq<char>, i: int)
    requires
        0 <= i <= d.len(),
        forall|j: int| 0 <= j < d.len() ==> d[j] != '/' && d[j] != '?',
    ensures
        path_start(d + t, i) == path_start(d + t, d.len() as int),
    decreases d.len() - i,
{
    if i < d.len() {
        assert((d + t)[i] == d[i]);
        lemma_path_start_skips(d, t, i + 1);
    }
}

/// Reading the port back from the bare URL of a port gives that port.
pub proof fn lemma_url_port_of_bare_url(port: nat)
    requires
        port <= 65535,
    ensures
        url_port_of(bare_url(port)) == Some(port),
{
    reveal_strlit("/");
    reveal_strlit("http://127.0.0.1:");
    let u = bare_url(port);
    let d = decimal(port);
    let p = loopback_ip_prefix();
    assert(u.take(p.len() as int) =~= p);
    let rest = u.skip(p.len() as int);
    assert(rest =~= d + "/"@);
    lemma_decimal_digits(port);
    assert forall|j: int| 0 <= j < d.len() implies d[j] != '/' && d[j] != '?' by {
        assert(is_ascii_digit(d[j]));
    }
    lemma_path_start_skips(d, "/"@, 0);
    assert((d + "/"@)[d.len() as int] == '/');
    assert(rest.take(path_start(rest, 0)) =~= d);
    lemma_parse_decimal(port, 65535);
}

/// `url_port` reads back the port of the URL that `url_for` builds.
pub proof fn law_url_port_reads_url_for(port: u16)
    ensures
        url_port_of(bare_url(port as nat)) == Some(port as nat),
{
    lemma_url_port_of_bare_url(port as nat);
}

/// The request line and headers of the readiness probe `GET /` on `port`.
pub open spec fn status_request(port: nat) -> Seq<char> {
    "GET / HTTP/1.1\r\nHost: 127.0.0.1:"@ + decimal(port)
        + "\r\nUser-Agent: dsh-launcher\r\nAccept: */*\r\nConnection: close\r\n\r\n"@
}

/// The HTTP request that asks `GET /` of the loopback port.
pub fn status_request_text(port: u16) -> (s: String)
    ensures
        s@ == status_request(port as nat),
{
    let mut v = chars_of("GET / HTTP/1.1\r\nHost: 127.0.0.1:");
    push_decimal(&mut v, port as u128);
    let tail = chars_of("\r\nUser-Agent: dsh-launcher\r\nAccept: */*\r\nConnection: close\r\n\r\n");
    let mut i: usize = 0;
    let ghost head = v@;
    while i < tail.len()
        invariant
            i <= tail@.len(),
            v@ == head + tail@.take(i as int),
        decreases tail@.len() - i,
    {
        v.push(tail[i]);
        assert(tail@.take(i + 1) =~= tail@.take(i as int).push(tail@[i as int]));
        i = i + 1;
    }
    assert(tail@.take(i as int) =~= tail@);
    assert(v@ =~= status_request(port as nat));
    string_from_chars(v.as_slice())
}

/// The status code in the head of an HTTP response: the second word of its
/// first line, read as a `u16`.
pub open spec fn status_code_in(text: Seq<char>) -> Option<nat> {
    if lines(text).len() > 0 && words(lines(text)[0]).len() > 1 {
        parse_unsigned(words(lines(text)[0])[1], 65535)
    } else {
        None
    }
}

/// The status code in the first bytes of an HTTP response, decoded as
/// `String::from_utf8_lossy` does; `None` when there is none.
pub fn parse_status_line(head: &[u8]) -> (r: Option<u16>)
    ensures
        r matches Some(c) ==> status_code_in(lossy_utf8(head@)) == Some(c as nat),
        r is None ==> status_code_in(lossy_utf8(head@)) is None,
{
    let text = utf8_lossy(head);
    let t = chars_of(text.as_str());
    let ls = line_spans(t.as_slice());
    if ls.len() == 0 {
        return None;
    }
    let (a, b) = ls[0];
    let first = slice_subrange(t.as_slice(), a, b);
    let ws = word_spans(first);
    if ws.len() < 2 {
        return None;
    }
    let (c, d) = ws[1];
    let code = slice_subrange(first, c, d);
    match parse_unsigned_chars(code, 65535) {
        Some(v) => Some(v as u16),
        None => None,
    }
}

} // verus!
