//! The HTTP/1.1 exchange with the Firecracker API over its Unix socket: the
//! request head, and reading and judging the response.
//!
//! The socket I/O is done by the caller; [`ResponseReader`] says, after each
//! read, whether more bytes are needed and how many, or what the response
//! amounts to.

use vstd::prelude::*;
use vstd::utf8::{decode_utf8, valid_utf8};

use crate::error::{Error, ErrorView};
use crate::kernelargs::{lemma_word_len_at, split_ws, word_len, lemma_word_len_bound};
use crate::text::{
    char_is_ws, chars_eq_ignore_ascii_case, chars_of, decimal, eq_ignore_ascii_case, is_ws,
    parse_unsigned, parse_unsigned_chars, trim, trim_bounds, u64_to_decimal,
};

verus! {

/// The characters that `String::from_utf8_lossy` decodes from `bytes`.
pub uninterp spec fn lossy_utf8(bytes: Seq<u8>) -> Seq<char>;

/// Decodes bytes as UTF-8, replacing invalid sequences.
///
/// Calls `String::from_utf8_lossy`. The contract names its result, and
/// states what its documentation promises: valid UTF-8 decodes to the
/// characters it encodes. What each invalid sequence becomes is left unsaid.
#[verifier::external_body]
fn utf8_lossy(bytes: &[u8]) -> (s: String)
    ensures
        s@ == lossy_utf8(bytes@),
        valid_utf8(bytes@) ==> s@ == decode_utf8(bytes@),
{
    String::from_utf8_lossy(bytes).into_owned()
}

/// Position of the first `c` in `t`.
pub open spec fn first_pos(t: Seq<char>, c: char) -> Option<nat>
    decreases t.len(),
{
    if t.len() == 0 {
        None
    } else if t[0] == c {
        Some(0)
    } else {
        match first_pos(t.drop_first(), c) {
            Some(i) => Some(i + 1),
            None => None,
        }
    }
}

proof fn lemma_first_pos_at(t: Seq<char>, c: char, k: nat)
    requires
        k < t.len(),
        t[k as int] == c,
        forall|i: int| 0 <= i < k ==> #[trigger] t[i] != c,
    ensures
        first_pos(t, c) == Some(k),
    decreases k,
{
    if k > 0 {
        assert forall|i: int| 0 <= i < k - 1 implies #[trigger] t.drop_first()[i] != c by {
            assert(t.drop_first()[i] == t[i + 1]);
        }
        lemma_first_pos_at(t.drop_first(), c, (k - 1) as nat);
    }
}

proof fn lemma_first_pos_none(t: Seq<char>, c: char)
    requires
        forall|i: int| 0 <= i < t.len() ==> #[trigger] t[i] != c,
    ensures
        first_pos(t, c) is None,
    decreases t.len(),
{
    if t.len() > 0 {
        assert forall|i: int| 0 <= i < t.len() - 1 implies #[trigger] t.drop_first()[i] != c by {
            assert(t.drop_first()[i] == t[i + 1]);
        }
        lemma_first_pos_none(t.drop_first(), c);
    }
}

pub proof fn lemma_first_pos_bound(t: Seq<char>, c: char)
    ensures
        first_pos(t, c) matches Some(k) ==> k < t.len() && t[k as int] == c,
    decreases t.len(),
{
    if t.len() > 0 && t[0] != c {
        lemma_first_pos_bound(t.drop_first(), c);
    }
}

/// The first `c` of `t` is at the first position that holds one.
pub proof fn lemma_first_pos_at_pub(t: Seq<char>, c: char, k: nat)
    requires
        k < t.len(),
        t[k as int] == c,
        forall|i: int| 0 <= i < k ==> #[trigger] t[i] != c,
    ensures
        first_pos(t, c) == Some(k),
{
    lemma_first_pos_at(t, c, k);
}

/// A sequence without `c` has no first `c`.
pub proof fn lemma_first_pos_none_pub(t: Seq<char>, c: char)
    requires
        forall|i: int| 0 <= i < t.len() ==> #[trigger] t[i] != c,
    ensures
        first_pos(t, c) is None,
{
    lemma_first_pos_none(t, c);
}

/// Position of the first `c` in `s[from..to]`, counted from `from`.
fn find_char(s: &[char], from: usize, to: usize, c: char) -> (r: Option<usize>)
    requires
        from <= to <= s@.len(),
    ensures
        match r {
            Some(k) => from <= k < to && first_pos(s@.subrange(from as int, to as int), c) == Some((k - from) as nat),
            None => first_pos(s@.subrange(from as int, to as int), c) is None,
        },
{
    let ghost t = s@.subrange(from as int, to as int);
    let mut i: usize = from;
    while i < to
        invariant
            from <= i <= to <= s@.len(),
            t == s@.subrange(from as int, to as int),
            forall|j: int| 0 <= j < i - from ==> #[trigger] t[j] != c,
        decreases to - i,
    {
        if s[i] == c {
            proof {
                lemma_first_pos_at(t, c, (i - from) as nat);
            }
            return Some(i);
        }
        i = i + 1;
    }
    proof {
        lemma_first_pos_none(t, c);
    }
    None
}

/// A line without its `\r` before the line break.
pub open spec fn strip_cr(l: Seq<char>) -> Seq<char> {
    if l.len() > 0 && l.last() == '\r' {
        l.drop_last()
    } else {
        l
    }
}

/// The lines of a text, as `str::lines` yields them: split at `\n`, each
/// line without its `\r\n` or `\n` ending; a final line break does not start
/// another line.
pub open spec fn lines(s: Seq<char>) -> Seq<Seq<char>>
    decreases s.len(),
{
    if s.len() == 0 {
        Seq::empty()
    } else {
        match first_pos(s, '\n') {
            Some(k) => {
                proof {
                    lemma_first_pos_bound(s, '\n');
                }
                seq![strip_cr(s.take(k as int))] + lines(s.skip(k as int + 1))
            },
            None => seq![s],
        }
    }
}

/// The tokens of `s[a..b]` split at whitespace, by their bounds in `s`.
fn ws_tokens(s: &[char], a: usize, b: usize) -> (r: Vec<(usize, usize)>)
    requires
        a <= b <= s@.len(),
    ensures
        r@.map_values(|p: (usize, usize)| s@.subrange(p.0 as int, p.1 as int)) == split_ws(s@.subrange(a as int, b as int)),
        forall|i: int| 0 <= i < r@.len() ==> a <= (#[trigger] r@[i]).0 <= r@[i].1 <= b,
{
    let ghost w = s@.subrange(a as int, b as int);
    let mut r: Vec<(usize, usize)> = Vec::new();
    let mut i: usize = a;
    assert(w.skip(0) =~= w);
    while i < b
        invariant
            a <= i <= b <= s@.len(),
            w == s@.subrange(a as int, b as int),
            split_ws(w) == r@.map_values(|p: (usize, usize)| s@.subrange(p.0 as int, p.1 as int)) + split_ws(w.skip(i - a)),
            forall|k: int| 0 <= k < r@.len() ==> a <= (#[trigger] r@[k]).0 <= r@[k].1 <= b,
        decreases b - i,
    {
        let ghost done = r@.map_values(|p: (usize, usize)| s@.subrange(p.0 as int, p.1 as int));
        if char_is_ws(s[i]) {
            assert(w.skip(i - a).drop_first() =~= w.skip(i - a + 1));
            i = i + 1;
        } else {
            let mut j: usize = i;
            while j < b && !char_is_ws(s[j])
                invariant
                    a <= i <= j <= b <= s@.len(),
                    forall|k: int| i <= k < j ==> !is_ws(#[trigger] s@[k]),
                decreases b - j,
            {
                j = j + 1;
            }
            proof {
                let t = w.skip(i - a);
                assert forall|k: int| 0 <= k < j - i implies !is_ws(#[trigger] t[k]) by {
                    assert(t[k] == s@[i + k]);
                }
                if j < b {
                    assert(t[j - i] == s@[j as int]);
                }
                lemma_word_len_at(t, (j - i) as nat);
                assert(t.take(j - i) =~= s@.subrange(i as int, j as int));
                assert(t.skip(j - i) =~= w.skip(j - a));
                assert(t[0] == s@[i as int]);
            }
            r.push((i, j));
            assert(r@.map_values(|p: (usize, usize)| s@.subrange(p.0 as int, p.1 as int)) =~= done.push(s@.subrange(i as int, j as int)));
            i = j;
        }
    }
    assert(w.skip(b - a) =~= Seq::<char>::empty());
    assert(split_ws(Seq::<char>::empty()) =~= Seq::<Seq<char>>::empty());
    r
}

/// The message of a malformed response whose status line is missing.
pub open spec fn missing_status_line() -> Seq<char> {
    "invalid HTTP response: missing status line"@
}

/// The message of a malformed status line.
pub open spec fn malformed_status_line() -> Seq<char> {
    "invalid HTTP response: malformed status line"@
}

/// The message of a malformed status code.
pub open spec fn malformed_status_code() -> Seq<char> {
    "invalid HTTP response: malformed status code"@
}

/// The status code of a response head: the second whitespace-separated
/// token of its first line, as a `u16`; otherwise the reason it is
/// malformed.
pub open spec fn status_spec(head: Seq<u8>) -> Result<u16, Seq<char>> {
    let ls = lines(lossy_utf8(head));
    if ls.len() == 0 {
        Err(missing_status_line())
    } else {
        let toks = split_ws(ls[0]);
        if toks.len() < 2 {
            Err(malformed_status_line())
        } else {
            match parse_unsigned(toks[1], 65535) {
                Some(v) => Ok(v as u16),
                None => Err(malformed_status_code()),
            }
        }
    }
}

/// The lines of `s` from position `i` on, with the first of them at the front.
proof fn lemma_lines_step(s: Seq<char>, i: int)
    requires
        0 <= i < s.len(),
    ensures
        match first_pos(s.skip(i), '\n') {
            Some(k) => i + k < s.len() && lines(s.skip(i)) == seq![strip_cr(s.subrange(i, i + k))] + lines(s.skip(i + k + 1)),
            None => lines(s.skip(i)) == seq![s.skip(i)],
        },
{
    let t = s.skip(i);
    lemma_first_pos_bound(t, '\n');
    match first_pos(t, '\n') {
        Some(k) => {
            assert(t.take(k as int) =~= s.subrange(i, i + k));
            assert(t.skip(k as int + 1) =~= s.skip(i + k + 1));
        },
        None => {},
    }
}

/// Reads the status code of a response head.
pub fn parse_http_status(head: &[u8]) -> (r: Result<u16, Error>)
    ensures
        match status_spec(head@) {
            Ok(v) => r == Ok::<u16, Error>(v),
            Err(m) => r matches Err(e) && e@ == ErrorView::Api { status: 0, body: m },
        },
        valid_utf8(head@) ==> lossy_utf8(head@) == decode_utf8(head@),
{
    let text = utf8_lossy(head);
    let c = chars_of(text.as_str());
    let ghost s = c@;
    let n = c.len();
    if n == 0 {
        proof {
            reveal_strlit("invalid HTTP response: missing status line");
        }
        return Err(Error::Api { status: 0, body: "invalid HTTP response: missing status line".to_string() });
    }
    let cs = c.as_slice();
    proof {
        lemma_lines_step(s, 0);
        assert(s.skip(0) =~= s);
    }
    let end = match find_char(cs, 0, n, '\n') {
        Some(k) => {
            assert(s.subrange(0, n as int) =~= s.skip(0));
            if k > 0 && cs[k - 1] == '\r' {
                assert(strip_cr(s.subrange(0, k as int)) =~= s.subrange(0, k as int - 1));
                k - 1
            } else {
                k
            }
        },
        None => {
            assert(s.subrange(0, n as int) =~= s);
            n
        },
    };
    assert(lines(s)[0] =~= s.subrange(0, end as int));
    let toks = ws_tokens(cs, 0, end);
    if toks.len() < 2 {
        proof {
            reveal_strlit("invalid HTTP response: malformed status line");
        }
        return Err(Error::Api { status: 0, body: "invalid HTTP response: malformed status line".to_string() });
    }
    let (ta, tb) = toks[1];
    assert(toks@.map_values(|p: (usize, usize)| s.subrange(p.0 as int, p.1 as int))[1] == s.subrange(ta as int, tb as int));
    let tok = &cs[ta..tb];
    match parse_unsigned_chars(tok, 65535) {
        Some(v) => Ok(v as u16),
        None => {
            proof {
                reveal_strlit("invalid HTTP response: malformed status code");
            }
            Err(Error::Api { status: 0, body: "invalid HTTP response: malformed status code".to_string() })
        },
    }
}

/// The content length that a header line declares: a line `name: value`
/// whose name is `Content-Length` in any ASCII case and whose trimmed value
/// is a number.
pub open spec fn line_content_length(l: Seq<char>) -> Option<nat> {
    match first_pos(l, ':') {
        Some(k) => if eq_ignore_ascii_case(l.take(k as int), "content-length"@) {
            parse_unsigned(trim(l.skip(k as int + 1)), usize::MAX as nat)
        } else {
            None
        },
        None => None,
    }
}

/// The first content length that a sequence of lines declares.
pub open spec fn first_content_length(ls: Seq<Seq<char>>) -> Option<nat>
    decreases ls.len(),
{
    if ls.len() == 0 {
        None
    } else {
        match line_content_length(ls[0]) {
            Some(v) => Some(v),
            None => first_content_length(ls.drop_first()),
        }
    }
}

/// The content length that a response head declares.
pub open spec fn content_length_spec(head: Seq<u8>) -> Option<nat> {
    first_content_length(lines(lossy_utf8(head)))
}

fn line_content_length_exec(s: &[char], a: usize, b: usize) -> (r: Option<usize>)
    requires
        a <= b <= s@.len(),
    ensures
        match r {
            Some(v) => line_content_length(s@.subrange(a as int, b as int)) == Some(v as nat),
            None => line_content_length(s@.subrange(a as int, b as int)) is None,
        },
{
    let ghost l = s@.subrange(a as int, b as int);
    match find_char(s, a, b, ':') {
        Some(k) => {
            let name = &s[a..k];
            let want = chars_of("content-length");
            assert(l.take(k - a) =~= name@);
            if chars_eq_ignore_ascii_case(name, want.as_slice()) {
                let (va, vb) = trim_bounds(s, k + 1, b);
                assert(l.skip(k - a + 1) =~= s@.subrange(k as int + 1, b as int));
                let value = &s[va..vb];
                match parse_unsigned_chars(value, usize::MAX as u64) {
                    Some(v) => Some(v as usize),
                    None => None,
                }
            } else {
                None
            }
        },
        None => None,
    }
}

/// The content length that a response head declares, if any.
pub fn content_length(head: &[u8]) -> (r: Option<usize>)
    ensures
        match r {
            Some(v) => content_length_spec(head@) == Some(v as nat),
            None => content_length_spec(head@) is None,
        },
        valid_utf8(head@) ==> lossy_utf8(head@) == decode_utf8(head@),
{
    let text = utf8_lossy(head);
    let c = chars_of(text.as_str());
    let ghost s = c@;
    let cs = c.as_slice();
    let n = c.len();
    let mut i: usize = 0;
    assert(s.skip(0) =~= s);
    while i < n
        invariant
            i <= n,
            n == s.len(),
            cs@ == s,
            s == lossy_utf8(head@),
            valid_utf8(head@) ==> lossy_utf8(head@) == decode_utf8(head@),
            content_length_spec(head@) == first_content_length(lines(s.skip(i as int))),
        decreases n - i,
    {
        proof {
            lemma_lines_step(s, i as int);
        }
        match find_char(cs, i, n, '\n') {
            Some(k) => {
                assert(s.subrange(i as int, n as int) =~= s.skip(i as int));
                let mut e = k;
                if k > i && cs[k - 1] == '\r' {
                    e = k - 1;
                }
                assert(strip_cr(s.subrange(i as int, k as int)) =~= s.subrange(i as int, e as int));
                let ghost l = s.subrange(i as int, e as int);
                let ghost rest = lines(s.skip(k as int + 1));
                assert((seq![l] + rest).drop_first() =~= rest);
                assert((seq![l] + rest)[0] == l);
                match line_content_length_exec(cs, i, e) {
                    Some(v) => return Some(v),
                    None => {},
                }
                i = k + 1;
            },
            None => {
                assert(s.subrange(i as int, n as int) =~= s.skip(i as int));
                assert(seq![s.skip(i as int)].drop_first() =~= Seq::<Seq<char>>::empty());
                assert(lines(s.skip(i as int)) == seq![s.skip(i as int)]);
                assert(first_content_length(Seq::<Seq<char>>::empty()) is None);
                assert(first_content_length(seq![s.skip(i as int)]) == line_content_length(s.skip(i as int)));
                return line_content_length_exec(cs, i, n);
            },
        }
    }
    assert(s.skip(n as int) =~= Seq::<char>::empty());
    None
}

/// A response to `method` with `status` carries no body: responses to
/// `HEAD`, `204`, `304` and informational (`1xx`) responses.
pub open spec fn must_not_have_body_spec(method: Seq<char>, status: u16) -> bool {
    eq_ignore_ascii_case(method, "HEAD"@) || status == 204 || status == 304 || (100 <= status && status < 200)
}

/// Whether a response to `method` with `status` carries no body.
pub fn response_must_not_have_body(method: &str, status: u16) -> (r: bool)
    ensures
        r == must_not_have_body_spec(method@, status),
{
    let m = chars_of(method);
    let h = chars_of("HEAD");
    chars_eq_ignore_ascii_case(m.as_slice(), h.as_slice()) || status == 204 || status == 304 || (100 <= status && status < 200)
}

/// What a response with this head and body amounts to: the body for a
/// `2xx` status, an API error with the status and the body's text
/// otherwise, or the reason the head is malformed.
pub open spec fn response_spec(head: Seq<u8>, body: Seq<u8>) -> Result<Seq<u8>, ErrorView> {
    match status_spec(head) {
        Err(m) => Err(ErrorView::Api { status: 0, body: m }),
        Ok(s) => if 200 <= s && s < 300 {
            Ok(body)
        } else {
            Err(ErrorView::Api { status: s, body: lossy_utf8(body) })
        },
    }
}

/// A result by its view.
pub open spec fn result_view(r: Result<Vec<u8>, Error>) -> Result<Seq<u8>, ErrorView> {
    match r {
        Ok(v) => Ok(v@),
        Err(e) => Err(e@),
    }
}

/// Judges a response by its head and body.
pub fn parse_http_response(head: &[u8], body: &[u8]) -> (r: Result<Vec<u8>, Error>)
    ensures
        result_view(r) == response_spec(head@, body@),
{
    let status = match parse_http_status(head) {
        Ok(s) => s,
        Err(e) => return Err(e),
    };
    if !(200 <= status && status < 300) {
        let text = utf8_lossy(body);
        return Err(Error::Api { status, body: text });
    }
    let mut v: Vec<u8> = Vec::new();
    let mut i: usize = 0;
    while i < body.len()
        invariant
            i <= body@.len(),
            v@ == body@.take(i as int),
        decreases body.len() - i,
    {
        v.push(body[i]);
        assert(v@ =~= body@.take(i as int + 1));
        i = i + 1;
    }
    assert(body@.take(body@.len() as int) =~= body@);
    Ok(v)
}

/// `\r\n\r\n` starts at position `i` of `d`.
pub open spec fn delim_at(d: Seq<u8>, i: int) -> bool {
    0 <= i && i + 4 <= d.len() && d[i] == 13 && d[i + 1] == 10 && d[i + 2] == 13 && d[i + 3] == 10
}

/// `\r\n\r\n` starts at `i` and nowhere before.
pub open spec fn first_delim(d: Seq<u8>, i: int) -> bool {
    delim_at(d, i) && forall|j: int| 0 <= j < i ==> !delim_at(d, j)
}

/// Where the head of a response ends: the first `\r\n\r\n`.
pub open spec fn header_end(d: Seq<u8>) -> Option<nat> {
    if exists|i: int| first_delim(d, i) {
        Some((choose|i: int| first_delim(d, i)) as nat)
    } else {
        None
    }
}

/// Finds where the head of a response ends.
pub fn find_header_end(d: &[u8]) -> (r: Option<usize>)
    ensures
        match r {
            Some(p) => header_end(d@) == Some(p as nat),
            None => header_end(d@) is None,
        },
{
    let mut i: usize = 0;
    while d.len() >= 4 && i <= d.len() - 4
        invariant
            forall|j: int| 0 <= j < i ==> !delim_at(d@, j),
        decreases d.len() - i,
    {
        if d[i] == 13 && d[i + 1] == 10 && d[i + 2] == 13 && d[i + 3] == 10 {
            assert(first_delim(d@, i as int));
            proof {
                let c = choose|c: int| first_delim(d@, c);
                if c < i {
                } else if c > i {
                }
                assert(c == i);
            }
            return Some(i);
        }
        i = i + 1;
    }
    assert(forall|j: int| !first_delim(d@, j));
    None
}

/// Where reading a response stands.
pub enum Progress {
    /// Read at most this many more bytes.
    More(nat),
    /// The response is complete; this is what it amounts to.
    Finished(Result<Seq<u8>, ErrorView>),
}

/// The message of a response that ends before its head does.
pub open spec fn eof_in_head() -> Seq<char> {
    "unexpected EOF while reading HTTP response headers"@
}

/// Where reading the response to `method` stands after receiving `data`;
/// `eof` tells whether the connection was closed.
///
/// The head ends at the first `\r\n\r\n`. A declared content length bounds
/// the body; without one, a response that carries no body ends at its head,
/// and any other ends when the connection closes.
pub open spec fn response_progress(method: Seq<char>, data: Seq<u8>, eof: bool) -> Progress {
    match header_end(data) {
        None => if eof {
            Progress::Finished(Err(ErrorView::Api { status: 0, body: eof_in_head() }))
        } else {
            Progress::More(1024)
        },
        Some(p) => {
            let head = data.take(p as int);
            let rest = data.skip(p as int + 4);
            match status_spec(head) {
                Err(m) => Progress::Finished(Err(ErrorView::Api { status: 0, body: m })),
                Ok(status) => match content_length_spec(head) {
                    Some(cl) => if rest.len() >= cl {
                        Progress::Finished(response_spec(head, rest.take(cl as int)))
                    } else if eof {
                        Progress::Finished(response_spec(head, rest))
                    } else {
                        Progress::More((cl - rest.len()) as nat)
                    },
                    None => if must_not_have_body_spec(method, status) {
                        Progress::Finished(response_spec(head, Seq::empty()))
                    } else if eof {
                        Progress::Finished(response_spec(head, rest))
                    } else {
                        Progress::More(1024)
                    },
                },
            }
        },
    }
}

/// What the caller does next while reading a response.
#[derive(Debug)]
pub enum ReadStep {
    /// Read at most this many bytes and hand them to the reader; an empty
    /// read means that the connection was closed.
    Read(usize),
    /// The response is complete.
    Done(Result<Vec<u8>, Error>),
}

/// A read step by its view.
pub open spec fn step_view(s: ReadStep) -> Progress {
    match s {
        ReadStep::Read(n) => Progress::More(n as nat),
        ReadStep::Done(r) => Progress::Finished(result_view(r)),
    }
}

/// Reads the response to one request, from the bytes that the caller
/// receives.
#[derive(Debug)]
pub struct ResponseReader {
    method: String,
    received: Vec<u8>,
}

impl ResponseReader {
    /// The request method that the response answers.
    pub closed spec fn method(&self) -> Seq<char> {
        self.method@
    }

    /// All bytes received so far.
    pub closed spec fn received(&self) -> Seq<u8> {
        self.received@
    }

    /// A reader for the response to a request with `method`, and what to do
    /// first.
    pub fn new(method: &str) -> (r: (Self, ReadStep))
        ensures
            r.0.method() == method@,
            r.0.received() == Seq::<u8>::empty(),
            step_view(r.1) == response_progress(method@, Seq::empty(), false),
    {
        let reader = ResponseReader { method: method.to_string(), received: Vec::new() };
        proof {
            assert(reader.received@ =~= Seq::<u8>::empty());
            assert(forall|j: int| !first_delim(Seq::<u8>::empty(), j));
        }
        (reader, ReadStep::Read(1024))
    }

    /// Takes the bytes of one read (none when the connection was closed) and
    /// says what to do next.
    pub fn on_read(&mut self, chunk: &[u8]) -> (r: ReadStep)
        ensures
            final(self).method() == old(self).method(),
            final(self).received() == old(self).received() + chunk@,
            step_view(r) == response_progress(old(self).method(), old(self).received() + chunk@, chunk@.len() == 0),
    {
        let ghost before = self.received@;
        let mut i: usize = 0;
        while i < chunk.len()
            invariant
                i <= chunk@.len(),
                self.received@ == before + chunk@.take(i as int),
                self.method@ == old(self).method@,
            decreases chunk.len() - i,
        {
            self.received.push(chunk[i]);
            assert(self.received@ =~= before + chunk@.take(i as int + 1));
            i = i + 1;
        }
        assert(chunk@.take(chunk@.len() as int) =~= chunk@);
        let eof = chunk.len() == 0;
        progress_of(self.method.as_str(), self.received.as_slice(), eof)
    }
}

/// What to do next after receiving `data` in answer to `method`.
fn progress_of(method: &str, data: &[u8], eof: bool) -> (r: ReadStep)
    ensures
        step_view(r) == response_progress(method@, data@, eof),
{
    let p = match find_header_end(data) {
        Some(p) => p,
        None => {
            if eof {
                proof {
                    reveal_strlit("unexpected EOF while reading HTTP response headers");
                }
                return ReadStep::Done(Err(Error::Api {
                    status: 0,
                    body: "unexpected EOF while reading HTTP response headers".to_string(),
                }));
            }
            return ReadStep::Read(1024);
        },
    };
    proof {
        let c = choose|c: int| first_delim(data@, c);
        assert(first_delim(data@, c));
        assert(p as int == c);
        assert(delim_at(data@, p as int));
    }
    assert(p + 4 <= data@.len());
    assert(data@.len() == data.len());
    let head = &data[0..p];
    let rest = &data[p + 4..data.len()];
    assert(head@ == data@.take(p as int));
    assert(rest@ == data@.skip(p as int + 4));
    let status = match parse_http_status(head) {
        Ok(s) => s,
        Err(e) => return ReadStep::Done(Err(e)),
    };
    body_progress(method, head, rest, status, eof)
}

/// What to do next once the head has been received and its status read.
#[verifier::rlimit(30)]
fn body_progress(method: &str, head: &[u8], rest: &[u8], status: u16, eof: bool) -> (r: ReadStep)
    requires
        status_spec(head@) == Ok::<u16, Seq<char>>(status),
    ensures
        step_view(r) == (match content_length_spec(head@) {
            Some(cl) => if rest@.len() >= cl {
                Progress::Finished(response_spec(head@, rest@.take(cl as int)))
            } else if eof {
                Progress::Finished(response_spec(head@, rest@))
            } else {
                Progress::More((cl - rest@.len()) as nat)
            },
            None => if must_not_have_body_spec(method@, status) {
                Progress::Finished(response_spec(head@, Seq::empty()))
            } else if eof {
                Progress::Finished(response_spec(head@, rest@))
            } else {
                Progress::More(1024)
            },
        }),
{
    match content_length(head) {
        Some(cl) => {
            if rest.len() >= cl {
                let body = &rest[0..cl];
                assert(body@ =~= rest@.take(cl as int));
                ReadStep::Done(parse_http_response(head, body))
            } else if eof {
                ReadStep::Done(parse_http_response(head, rest))
            } else {
                ReadStep::Read(cl - rest.len())
            }
        },
        None => {
            if response_must_not_have_body(method, status) {
                let empty: Vec<u8> = Vec::new();
                assert(empty@ =~= Seq::<u8>::empty());
                ReadStep::Done(parse_http_response(head, empty.as_slice()))
            } else if eof {
                ReadStep::Done(parse_http_response(head, rest))
            } else {
                ReadStep::Read(1024)
            }
        },
    }
}

/// The head of a request: request line, fixed headers, the content length
/// and, when there is a body, its JSON content type, then a blank line.
pub open spec fn request_head_spec(method: Seq<char>, path: Seq<char>, body_len: nat) -> Seq<char> {
    method + " "@ + path
        + " HTTP/1.1\r\nHost: localhost\r\nUser-Agent: firecracker-rs-sdk\r\nAccept: application/json\r\nConnection: close\r\nContent-Length: "@
        + decimal(body_len) + "\r\n"@ + (if body_len > 0 {
        "Content-Type: application/json\r\n"@
    } else {
        Seq::empty()
    }) + "\r\n"@
}

/// Writes the head of a request with a body of `body_len` bytes.
pub fn request_head(method: &str, path: &str, body_len: usize) -> (r: String)
    ensures
        r@ == request_head_spec(method@, path@, body_len as nat),
{
    let mut r = method.to_string();
    r.append(" ");
    r.append(path);
    r.append(" HTTP/1.1\r\nHost: localhost\r\nUser-Agent: firecracker-rs-sdk\r\nAccept: application/json\r\nConnection: close\r\nContent-Length: ");
    let len = u64_to_decimal(body_len as u64);
    r.append(len.as_str());
    r.append("\r\n");
    let ghost mid = r@;
    if body_len > 0 {
        r.append("Content-Type: application/json\r\n");
    }
    assert(r@ =~= mid + (if body_len > 0 {
        "Content-Type: application/json\r\n"@
    } else {
        Seq::<char>::empty()
    }));
    r.append("\r\n");
    r
}

} // verus!
