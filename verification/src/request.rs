//! The structured request and its parser.
//!
//! A request is framed by the four-byte terminator `\r\n\r\n`: until the
//! buffered bytes contain it, nothing is parsed. Once present, the bytes
//! before it split on `\r\n` into the request line and the header lines, and
//! the body is exactly `Content-Length` bytes after the terminator; bytes
//! beyond that stay in the buffer for the next request.

use vstd::prelude::*;

use crate::ascii_of;
use crate::codec::Encoder;
use crate::push_ascii;

verus! {

use vstd::slice::slice_index_get;
use vstd::slice::slice_subrange;
use vstd::slice::slice_to_vec;

/// The four-byte sequence that terminates a request's header block.
pub open spec fn terminator() -> Seq<u8> {
    seq![13u8, 10u8, 13u8, 10u8]
}

/// The two-byte line break that separates header lines.
pub open spec fn crlf() -> Seq<u8> {
    seq![13u8, 10u8]
}

/// The two-byte separator between a header's name and its value.
pub open spec fn header_sep() -> Seq<u8> {
    seq![58u8, 32u8]
}

/// The position of the first occurrence of `pat` in `s` at or after `i`.
pub open spec fn spec_find_from(s: Seq<u8>, pat: Seq<u8>, i: int) -> Option<int>
    decreases s.len() - i,
    when 0 <= i <= s.len() && pat.len() >= 1
{
    if i + pat.len() > s.len() {
        None
    } else if s.subrange(i, i + pat.len()) == pat {
        Some(i)
    } else {
        spec_find_from(s, pat, i + 1)
    }
}

/// The position of the first occurrence of `pat` in `s`.
pub open spec fn spec_find(s: Seq<u8>, pat: Seq<u8>) -> Option<int> {
    spec_find_from(s, pat, 0)
}

/// A found position is in bounds, matches `pat`, and is the first match at or
/// after `i`.
pub proof fn lemma_find_some(s: Seq<u8>, pat: Seq<u8>, i: int, j: int)
    requires
        0 <= i <= s.len(),
        pat.len() >= 1,
        spec_find_from(s, pat, i) == Some(j),
    ensures
        i <= j,
        j + pat.len() <= s.len(),
        s.subrange(j, j + pat.len()) == pat,
        forall|k: int| i <= k < j ==> #[trigger] s.subrange(k, k + pat.len()) != pat,
    decreases s.len() - i,
{
    if i + pat.len() > s.len() {
    } else if s.subrange(i, i + pat.len()) == pat {
    } else {
        lemma_find_some(s, pat, i + 1, j);
    }
}

/// When no position is found, no position at or after `i` matches `pat`.
pub proof fn lemma_find_none(s: Seq<u8>, pat: Seq<u8>, i: int)
    requires
        0 <= i <= s.len(),
        pat.len() >= 1,
        spec_find_from(s, pat, i) is None,
    ensures
        forall|k: int|
            i <= k && k + pat.len() <= s.len() ==> #[trigger] s.subrange(k, k + pat.len())
                != pat,
    decreases s.len() - i,
{
    if i + pat.len() > s.len() {
    } else if s.subrange(i, i + pat.len()) == pat {
    } else {
        lemma_find_none(s, pat, i + 1);
    }
}

/// Whether two byte slices hold the same bytes.
pub fn bytes_eq(a: &[u8], b: &[u8]) -> (r: bool)
    ensures
        r == (a@ == b@),
{
    if a.len() != b.len() {
        proof {
            assert(a@.len() != b@.len());
        }
        return false;
    }
    let n = a.len();
    let mut i: usize = 0;
    while i < n
        invariant
            n == a@.len() == b@.len(),
            i <= n,
            forall|k: int| 0 <= k < i ==> a@[k] == b@[k],
        decreases n - i,
    {
        if a[i] != b[i] {
            return false;
        }
        i = i + 1;
    }
    assert(a@ =~= b@);
    true
}

/// The position of the first occurrence of `pat` in `s`, scanning forward.
pub fn find_sub(s: &[u8], pat: &[u8]) -> (r: Option<usize>)
    requires
        pat@.len() >= 1,
    ensures
        match r {
            Some(j) => spec_find(s@, pat@) == Some(j as int),
            None => spec_find(s@, pat@) is None,
        },
{
    let n = s.len();
    let m = pat.len();
    if m > n {
        return None;
    }
    let mut i: usize = 0;
    while i <= n - m
        invariant
            n == s@.len(),
            m == pat@.len(),
            1 <= m <= n,
            i <= n - m + 1,
            spec_find(s@, pat@) == spec_find_from(s@, pat@, i as int),
        decreases n - i,
    {
        let mut k: usize = 0;
        let mut matches_here = true;
        while k < m
            invariant
                n == s@.len(),
                m == pat@.len(),
                i <= n - m,
                k <= m,
                matches_here == (forall|t: int| 0 <= t < k ==> s@[i + t] == pat@[t]),
                !matches_here ==> k == m,
            decreases m - k,
        {
            if s[i + k] != pat[k] {
                matches_here = false;
                k = m;
            } else {
                proof {
                    assert(s@[i + k] == pat@[k as int]);
                    assert forall|t: int| 0 <= t < k + 1 implies s@[i + t] == pat@[t] by {
                        if t < k {
                            assert(s@[i + t] == pat@[t]);
                        } else {
                            assert(t == k);
                        }
                    }
                }
                k = k + 1;
            }
        }
        if matches_here {
            assert(s@.subrange(i as int, i + m) =~= pat@);
            return Some(i);
        }
        proof {
            let t = choose|t: int| 0 <= t < k && s@[i + t] != pat@[t];
            assert(s@.subrange(i as int, i + m)[t] == s@[i + t]);
            assert(s@.subrange(i as int, i + m) != pat@);
        }
        i = i + 1;
    }
    None
}

/// The lines of `s`, split on every `\r\n`. Splitting is total: with no line
/// break present the result is the single line `s`.
pub open spec fn split_crlf(s: Seq<u8>) -> Seq<Seq<u8>>
    decreases s.len(),
    via split_crlf_decreases
{
    match spec_find(s, crlf()) {
        None => seq![s],
        Some(i) => seq![s.subrange(0, i)] + split_crlf(s.subrange(i + 2, s.len() as int)),
    }
}

#[via_fn]
proof fn split_crlf_decreases(s: Seq<u8>) {
    match spec_find(s, crlf()) {
        None => (),
        Some(i) => {
            lemma_find_some(s, crlf(), 0, i);
        },
    }
}

/// Splits a header block into its lines on `\r\n`.
pub fn split_lines(block: &[u8]) -> (lines: Vec<Vec<u8>>)
    ensures
        lines.deep_view() == split_crlf(block@),
{
    let mut sep: Vec<u8> = Vec::new();
    sep.push(13);
    sep.push(10);
    assert(sep@ =~= crlf());
    let mut lines: Vec<Vec<u8>> = Vec::new();
    let mut rest: &[u8] = block;
    loop
        invariant_except_break
            sep@ == crlf(),
            split_crlf(block@) =~~= lines.deep_view() + split_crlf(rest@),
        ensures
            lines.deep_view() == split_crlf(block@),
        decreases rest@.len(),
    {
        match find_sub(rest, sep.as_slice()) {
            None => {
                let ghost prev = lines.deep_view();
                lines.push(slice_to_vec(rest));
                proof {
                    assert(lines.deep_view() =~~= prev.push(rest@));
                    assert(lines.deep_view() =~~= split_crlf(block@));
                }
                break ;
            },
            Some(j) => {
                proof {
                    lemma_find_some(rest@, crlf(), 0, j as int);
                    assert(crlf().len() == 2);
                }
                let ghost prev = lines.deep_view();
                let ghost prev_rest = rest@;
                let rest_len = rest.len();
                let line = slice_to_vec(slice_subrange(rest, 0, j));
                lines.push(line);
                rest = slice_subrange(rest, j + 2, rest_len);
                proof {
                    assert(lines.deep_view() =~~= prev.push(prev_rest.subrange(0, j as int)));
                    assert(split_crlf(block@) =~~= lines.deep_view() + split_crlf(rest@));
                }
            },
        }
    }
    lines
}

/// The position right after the first token in `s`: the first space, or the
/// end of `s`.
pub open spec fn spec_token_end(s: Seq<u8>) -> int {
    match spec_find(s, seq![32u8]) {
        Some(i) => i,
        None => s.len() as int,
    }
}

/// The whitespace-separated tokens of `s`: maximal runs of bytes other than
/// the space byte, in order.
pub open spec fn spec_tokens(s: Seq<u8>) -> Seq<Seq<u8>>
    decreases s.len(),
    via spec_tokens_decreases
{
    if s.len() == 0 {
        seq![]
    } else if s[0] == 32 {
        spec_tokens(s.subrange(1, s.len() as int))
    } else {
        seq![s.subrange(0, spec_token_end(s))] + spec_tokens(
            s.subrange(spec_token_end(s), s.len() as int),
        )
    }
}

#[via_fn]
proof fn spec_tokens_decreases(s: Seq<u8>) {
    if s.len() != 0 && s[0] != 32 {
        match spec_find(s, seq![32u8]) {
            Some(i) => {
                lemma_find_some(s, seq![32u8], 0, i);
                assert(s.subrange(i, i + 1)[0] == s[i]);
                if i == 0 {
                    assert(s.subrange(0, 1)[0] == 32);
                }
            },
            None => (),
        }
    }
}

/// The first token covers positions `0..spec_token_end(s)` of `s`, and the
/// end is in bounds.
proof fn lemma_token_end(s: Seq<u8>)
    requires
        s.len() > 0,
        s[0] != 32,
    ensures
        1 <= spec_token_end(s) <= s.len(),
{
    match spec_find(s, seq![32u8]) {
        Some(i) => {
            lemma_find_some(s, seq![32u8], 0, i);
            assert(s.subrange(i, i + 1)[0] == s[i]);
            if i == 0 {
                assert(s.subrange(0, 1)[0] == 32);
            }
        },
        None => (),
    }
}

/// Splits a line into its whitespace-separated tokens.
pub fn tokenize(line: &[u8]) -> (ts: Vec<Vec<u8>>)
    ensures
        ts.deep_view() == spec_tokens(line@),
{
    let mut sp: Vec<u8> = Vec::new();
    sp.push(32);
    assert(sp@ =~= seq![32u8]);
    let mut ts: Vec<Vec<u8>> = Vec::new();
    let mut rest: &[u8] = line;
    while rest.len() > 0
        invariant
            sp@ == seq![32u8],
            spec_tokens(line@) =~~= ts.deep_view() + spec_tokens(rest@),
        decreases rest@.len(),
    {
        if *slice_index_get(rest, 0) == 32 {
            rest = slice_subrange(rest, 1, rest.len());
        } else {
            proof {
                lemma_token_end(rest@);
            }
            let k: usize = match find_sub(rest, sp.as_slice()) {
                Some(i) => i,
                None => rest.len(),
            };
            assert(k as int == spec_token_end(rest@));
            let ghost prev = ts.deep_view();
            let ghost prev_rest = rest@;
            let tok = slice_to_vec(slice_subrange(rest, 0, k));
            ts.push(tok);
            rest = slice_subrange(rest, k, rest.len());
            proof {
                assert(ts.deep_view() =~~= prev.push(prev_rest.subrange(0, k as int)));
                assert(spec_tokens(line@) =~~= ts.deep_view() + spec_tokens(rest@));
            }
        }
    }
    proof {
        assert(spec_tokens(rest@) =~~= Seq::<Seq<u8>>::empty());
        assert(ts.deep_view() =~~= spec_tokens(line@));
    }
    ts
}

/// The request methods the server accepts; any other method token is a fatal
/// parse failure.
#[derive(Clone, Copy, PartialEq, Eq, Structural, Debug)]
pub enum Verb {
    GET,
    POST,
}

/// The parsed request line: the method and the raw request target.
pub struct RequestLine {
    pub verb: Verb,
    pub endpoint: Vec<u8>,
}

/// The mathematical model of [`RequestLine`].
pub struct SpecRequestLine {
    pub verb: Verb,
    pub endpoint: Seq<u8>,
}

impl View for RequestLine {
    type V = SpecRequestLine;

    open spec fn view(&self) -> SpecRequestLine {
        SpecRequestLine { verb: self.verb, endpoint: self.endpoint@ }
    }
}

/// The request line parsed: exactly three whitespace-separated tokens
/// `<verb> <target> <version>`, the verb one of `GET` and `POST`. The version
/// token is accepted unchecked.
pub open spec fn spec_parse_request_line(line: Seq<u8>) -> Option<SpecRequestLine> {
    let ts = spec_tokens(line);
    if ts.len() == 3 {
        if ts[0] == ascii_of("GET"@) {
            Some(SpecRequestLine { verb: Verb::GET, endpoint: ts[1] })
        } else if ts[0] == ascii_of("POST"@) {
            Some(SpecRequestLine { verb: Verb::POST, endpoint: ts[1] })
        } else {
            None
        }
    } else {
        None
    }
}

/// Parses the request line, or reports it malformed.
pub fn parse_request_line(line: &[u8]) -> (r: Option<RequestLine>)
    ensures
        match r {
            Some(rl) => spec_parse_request_line(line@) == Some(rl@),
            None => spec_parse_request_line(line@) is None,
        },
{
    let ts = tokenize(line);
    proof {
        assert(ts.deep_view().len() == ts@.len());
    }
    if ts.len() != 3 {
        return None;
    }
    proof {
        assert(ts.deep_view()[0] == ts@[0]@);
        assert(ts.deep_view()[1] == ts@[1]@);
    }
    let mut get_lit: Vec<u8> = Vec::new();
    proof {
        reveal_strlit("GET");
    }
    assert(vstd::string::is_ascii("GET"));
    push_ascii(&mut get_lit, "GET");
    let mut post_lit: Vec<u8> = Vec::new();
    proof {
        reveal_strlit("POST");
    }
    assert(vstd::string::is_ascii("POST"));
    push_ascii(&mut post_lit, "POST");
    let verb: Verb = if bytes_eq(ts[0].as_slice(), get_lit.as_slice()) {
        Verb::GET
    } else if bytes_eq(ts[0].as_slice(), post_lit.as_slice()) {
        Verb::POST
    } else {
        return None;
    };
    let endpoint = slice_to_vec(ts[1].as_slice());
    Some(RequestLine { verb, endpoint })
}

/// The raw values of the recognized request headers, as parsed off the wire:
/// each field holds the value of the last header line with that exact name,
/// before any interpretation.
pub struct HeaderValues {
    pub accept_encoding: Option<Vec<u8>>,
    pub user_agent: Option<Vec<u8>>,
    pub content_type: Option<Vec<u8>>,
    pub content_length: Option<Vec<u8>>,
    pub connection: Option<Vec<u8>>,
}

/// The mathematical model of [`HeaderValues`].
pub struct SpecHeaderValues {
    pub accept_encoding: Option<Seq<u8>>,
    pub user_agent: Option<Seq<u8>>,
    pub content_type: Option<Seq<u8>>,
    pub content_length: Option<Seq<u8>>,
    pub connection: Option<Seq<u8>>,
}

impl View for HeaderValues {
    type V = SpecHeaderValues;

    open spec fn view(&self) -> SpecHeaderValues {
        SpecHeaderValues {
            accept_encoding: match self.accept_encoding {
                Some(v) => Some(v@),
                None => None,
            },
            user_agent: match self.user_agent {
                Some(v) => Some(v@),
                None => None,
            },
            content_type: match self.content_type {
                Some(v) => Some(v@),
                None => None,
            },
            content_length: match self.content_length {
                Some(v) => Some(v@),
                None => None,
            },
            connection: match self.connection {
                Some(v) => Some(v@),
                None => None,
            },
        }
    }
}

/// No header seen yet.
pub open spec fn spec_no_headers() -> SpecHeaderValues {
    SpecHeaderValues {
        accept_encoding: None,
        user_agent: None,
        content_type: None,
        content_length: None,
        connection: None,
    }
}

/// A header line split once on `": "` into name and value; a line without
/// the separator yields nothing and is skipped.
pub open spec fn spec_header_kv(line: Seq<u8>) -> Option<(Seq<u8>, Seq<u8>)> {
    match spec_find(line, header_sep()) {
        None => None,
        Some(i) => Some((line.subrange(0, i), line.subrange(i + 2, line.len() as int))),
    }
}

/// One header line applied to the values collected so far: a recognized name,
/// matched case-sensitively, overwrites its field (last one wins); any other
/// line leaves the values unchanged.
pub open spec fn spec_apply_header(h: SpecHeaderValues, line: Seq<u8>) -> SpecHeaderValues {
    match spec_header_kv(line) {
        None => h,
        Some(kv) => {
            if kv.0 == ascii_of("Accept-Encoding"@) {
                SpecHeaderValues { accept_encoding: Some(kv.1), ..h }
            } else if kv.0 == ascii_of("User-Agent"@) {
                SpecHeaderValues { user_agent: Some(kv.1), ..h }
            } else if kv.0 == ascii_of("Content-Type"@) {
                SpecHeaderValues { content_type: Some(kv.1), ..h }
            } else if kv.0 == ascii_of("Content-Length"@) {
                SpecHeaderValues { content_length: Some(kv.1), ..h }
            } else if kv.0 == ascii_of("Connection"@) {
                SpecHeaderValues { connection: Some(kv.1), ..h }
            } else {
                h
            }
        },
    }
}

/// The header lines folded in order, starting from no headers.
pub open spec fn spec_fold_headers(lines: Seq<Seq<u8>>) -> SpecHeaderValues
    decreases lines.len(),
{
    if lines.len() == 0 {
        spec_no_headers()
    } else {
        spec_apply_header(spec_fold_headers(lines.drop_last()), lines.last())
    }
}

/// Collects the recognized header values from the header lines, later lines
/// overwriting earlier ones of the same name.
pub fn parse_headers(lines: &Vec<Vec<u8>>) -> (r: HeaderValues)
    ensures
        r@ == spec_fold_headers(lines.deep_view()),
{
    let mut sep: Vec<u8> = Vec::new();
    sep.push(58);
    sep.push(32);
    assert(sep@ =~= header_sep());
    let mut accept_encoding_key: Vec<u8> = Vec::new();
    proof {
        reveal_strlit("Accept-Encoding");
    }
    assert(vstd::string::is_ascii("Accept-Encoding"));
    push_ascii(&mut accept_encoding_key, "Accept-Encoding");
    let mut user_agent_key: Vec<u8> = Vec::new();
    proof {
        reveal_strlit("User-Agent");
    }
    assert(vstd::string::is_ascii("User-Agent"));
    push_ascii(&mut user_agent_key, "User-Agent");
    let mut content_type_key: Vec<u8> = Vec::new();
    proof {
        reveal_strlit("Content-Type");
    }
    assert(vstd::string::is_ascii("Content-Type"));
    push_ascii(&mut content_type_key, "Content-Type");
    let mut content_length_key: Vec<u8> = Vec::new();
    proof {
        reveal_strlit("Content-Length");
    }
    assert(vstd::string::is_ascii("Content-Length"));
    push_ascii(&mut content_length_key, "Content-Length");
    let mut connection_key: Vec<u8> = Vec::new();
    proof {
        reveal_strlit("Connection");
    }
    assert(vstd::string::is_ascii("Connection"));
    push_ascii(&mut connection_key, "Connection");
    let mut values = HeaderValues {
        accept_encoding: None,
        user_agent: None,
        content_type: None,
        content_length: None,
        connection: None,
    };
    assert(values@ == spec_no_headers());
    let n = lines.len();
    let mut i: usize = 0;
    while i < n
        invariant
            n == lines@.len(),
            i <= n,
            sep@ == header_sep(),
            accept_encoding_key@ == ascii_of("Accept-Encoding"@),
            user_agent_key@ == ascii_of("User-Agent"@),
            content_type_key@ == ascii_of("Content-Type"@),
            content_length_key@ == ascii_of("Content-Length"@),
            connection_key@ == ascii_of("Connection"@),
            values@ == spec_fold_headers(lines.deep_view().take(i as int)),
        decreases n - i,
    {
        let ghost prev = values@;
        let line: &Vec<u8> = &lines[i];
        proof {
            assert(lines.deep_view()[i as int] == line@);
        }
        match find_sub(line.as_slice(), sep.as_slice()) {
            None => (),
            Some(j) => {
                proof {
                    lemma_find_some(line@, header_sep(), 0, j as int);
                    assert(header_sep().len() == 2);
                }
                let line_len = line.len();
                let key = slice_subrange(line.as_slice(), 0, j);
                let value = slice_to_vec(slice_subrange(line.as_slice(), j + 2, line_len));
                if bytes_eq(key, accept_encoding_key.as_slice()) {
                    values.accept_encoding = Some(value);
                } else if bytes_eq(key, user_agent_key.as_slice()) {
                    values.user_agent = Some(value);
                } else if bytes_eq(key, content_type_key.as_slice()) {
                    values.content_type = Some(value);
                } else if bytes_eq(key, content_length_key.as_slice()) {
                    values.content_length = Some(value);
                } else if bytes_eq(key, connection_key.as_slice()) {
                    values.connection = Some(value);
                }
            },
        }
        proof {
            assert(values@ == spec_apply_header(prev, line@));
            assert(lines.deep_view().take(i + 1).drop_last() =~~= lines.deep_view().take(i as int));
            assert(lines.deep_view().take(i + 1).last() == line@);
        }
        i = i + 1;
    }
    proof {
        assert(lines.deep_view().take(n as int) =~~= lines.deep_view());
    }
    values
}

/// Whether every byte of `s` is a decimal digit.
pub open spec fn is_digits(s: Seq<u8>) -> bool {
    forall|i: int| 0 <= i < s.len() ==> 48 <= #[trigger] s[i] <= 57
}

/// The numeric value of a sequence of decimal digit bytes, most significant
/// first.
pub open spec fn dec_value(s: Seq<u8>) -> int
    decreases s.len(),
{
    if s.len() == 0 {
        0
    } else {
        dec_value(s.drop_last()) * 10 + s.last() - 48
    }
}

/// The value of a digit sequence is never negative.
proof fn lemma_dec_value_nonneg(s: Seq<u8>)
    requires
        is_digits(s),
    ensures
        dec_value(s) >= 0,
    decreases s.len(),
{
    if s.len() > 0 {
        assert(is_digits(s.drop_last()));
        lemma_dec_value_nonneg(s.drop_last());
    }
}

/// The value of a prefix of a digit sequence is at most the whole value.
proof fn lemma_dec_value_prefix(s: Seq<u8>, i: int)
    requires
        is_digits(s),
        0 <= i <= s.len(),
    ensures
        dec_value(s.take(i)) <= dec_value(s),
    decreases s.len() - i,
{
    if i == s.len() {
        assert(s.take(i) =~= s);
    } else {
        lemma_dec_value_prefix(s, i + 1);
        assert(s.take(i + 1).drop_last() =~= s.take(i));
        assert(s.take(i + 1).last() == s[i]);
        assert(is_digits(s.take(i)));
        lemma_dec_value_nonneg(s.take(i));
    }
}

/// Parses a non-empty run of decimal digits into a machine integer; anything
/// else, including a value too large for `usize`, yields nothing.
pub fn parse_decimal(s: &[u8]) -> (r: Option<usize>)
    ensures
        match r {
            Some(n) => s@.len() > 0 && is_digits(s@) && n as int == dec_value(s@),
            None => s@.len() == 0 || !is_digits(s@) || dec_value(s@) > usize::MAX as int,
        },
{
    let n = s.len();
    if n == 0 {
        return None;
    }
    let mut val: usize = 0;
    let mut i: usize = 0;
    while i < n
        invariant
            n == s@.len(),
            i <= n,
            is_digits(s@.take(i as int)),
            val as int == dec_value(s@.take(i as int)),
        decreases n - i,
    {
        let b = *slice_index_get(s, i);
        if b < 48 || b > 57 {
            return None;
        }
        let d = (b - 48) as usize;
        proof {
            assert(s@.take(i + 1).drop_last() =~= s@.take(i as int));
            assert(s@.take(i + 1).last() == s@[i as int]);
            assert(is_digits(s@.take(i + 1)));
        }
        let stepped = match val.checked_mul(10) {
            Some(v10) => v10.checked_add(d),
            None => None,
        };
        match stepped {
            Some(v) => {
                val = v;
            },
            None => {
                proof {
                    assert(dec_value(s@.take(i + 1)) > usize::MAX as int);
                    if is_digits(s@) {
                        lemma_dec_value_prefix(s@, i + 1);
                    }
                }
                return None;
            },
        }
        i = i + 1;
    }
    proof {
        assert(s@.take(n as int) =~= s@);
    }
    Some(val)
}

/// The `Accept-Encoding` value interpreted: any non-empty value holding the
/// substring `gzip` selects gzip; any other value, or none, selects no
/// encoding. This is a deliberate single-token match, not quality-value
/// negotiation.
pub open spec fn spec_accept_encoding(v: Option<Seq<u8>>) -> Option<Encoder> {
    match v {
        Some(b) => if b.len() > 0 && spec_find(b, ascii_of("gzip"@)) is Some {
            Some(Encoder::Gzip)
        } else {
            None
        },
        None => None,
    }
}

/// Interprets a raw `Accept-Encoding` value.
pub fn encoder_type(value: &Option<Vec<u8>>) -> (r: Option<Encoder>)
    ensures
        r == spec_accept_encoding(
            match *value {
                Some(v) => Some(v@),
                None => None,
            },
        ),
{
    match value {
        Some(b) => {
            if b.len() == 0 {
                return None;
            }
            let mut gzip_lit: Vec<u8> = Vec::new();
            proof {
                reveal_strlit("gzip");
            }
            assert(vstd::string::is_ascii("gzip"));
            push_ascii(&mut gzip_lit, "gzip");
            match find_sub(b.as_slice(), gzip_lit.as_slice()) {
                Some(_) => Some(Encoder::Gzip),
                None => None,
            }
        },
        None => None,
    }
}

/// The `Content-Length` value interpreted. The outer option is `None` exactly
/// when the value is fatal: present, non-empty, and not a plain decimal
/// number that fits a machine integer. Inside, `None` means no declared
/// length (the header absent or its value empty).
pub open spec fn spec_content_length(v: Option<Seq<u8>>) -> Option<Option<nat>> {
    match v {
        None => Some(None),
        Some(b) => if b.len() == 0 {
            Some(None)
        } else if is_digits(b) && dec_value(b) <= usize::MAX as int {
            Some(Some(dec_value(b) as nat))
        } else {
            None
        },
    }
}

/// Interprets a raw `Content-Length` value; `None` is a fatal parse failure.
pub fn string_to_option_usize(value: &Option<Vec<u8>>) -> (r: Option<Option<usize>>)
    ensures
        ({
            let sv = spec_content_length(
                match *value {
                    Some(v) => Some(v@),
                    None => None,
                },
            );
            match r {
                Some(Some(n)) => sv == Some(Some(n as nat)),
                Some(None) => sv == Some(None::<nat>),
                None => sv is None,
            }
        }),
{
    match value {
        Some(b) => {
            if b.len() == 0 {
                return Some(None);
            }
            match parse_decimal(b.as_slice()) {
                Some(n) => Some(Some(n)),
                None => None,
            }
        },
        None => Some(None),
    }
}

/// The recognized request headers, interpreted. All other headers of the
/// request are ignored.
pub struct Headers {
    pub accept_encoding: Option<Encoder>,
    pub user_agent: Option<Vec<u8>>,
    pub content_type: Option<Vec<u8>>,
    pub content_length: Option<usize>,
    pub connection: Option<Vec<u8>>,
}

/// The mathematical model of [`Headers`].
pub struct SpecHeaders {
    pub accept_encoding: Option<Encoder>,
    pub user_agent: Option<Seq<u8>>,
    pub content_type: Option<Seq<u8>>,
    pub content_length: Option<nat>,
    pub connection: Option<Seq<u8>>,
}

impl View for Headers {
    type V = SpecHeaders;

    open spec fn view(&self) -> SpecHeaders {
        SpecHeaders {
            accept_encoding: self.accept_encoding,
            user_agent: match self.user_agent {
                Some(v) => Some(v@),
                None => None,
            },
            content_type: match self.content_type {
                Some(v) => Some(v@),
                None => None,
            },
            content_length: match self.content_length {
                Some(n) => Some(n as nat),
                None => None,
            },
            connection: match self.connection {
                Some(v) => Some(v@),
                None => None,
            },
        }
    }
}

/// A complete parsed request. Its body holds exactly the number of bytes the
/// `Content-Length` header declared, and is empty when none was.
pub struct Request {
    pub request_line: RequestLine,
    pub headers: Headers,
    pub body: Vec<u8>,
}

/// The mathematical model of [`Request`].
pub struct SpecRequest {
    pub request_line: SpecRequestLine,
    pub headers: SpecHeaders,
    pub body: Seq<u8>,
}

impl View for Request {
    type V = SpecRequest;

    open spec fn view(&self) -> SpecRequest {
        SpecRequest { request_line: self.request_line@, headers: self.headers@, body: self.body@ }
    }
}

/// Why a buffered request is rejected for good; either reason tears the
/// connection down.
#[derive(Clone, Copy, PartialEq, Eq, Structural, Debug)]
pub enum MalformReason {
    RequestLine,
    ContentLength,
}

/// What parsing the buffered bytes produced: not enough bytes yet, a fatal
/// failure, or a complete request together with the number of bytes it
/// consumed.
pub enum ParseOutcome {
    Incomplete,
    Malformed(MalformReason),
    Complete(Request, usize),
}

/// The mathematical model of [`ParseOutcome`].
pub enum SpecParseOutcome {
    Incomplete,
    Malformed(MalformReason),
    Complete(SpecRequest, int),
}

/// The raw header values folded from the header lines, interpreted into the
/// request's header model, given the already-interpreted content length.
pub open spec fn spec_interpret_headers(hv: SpecHeaderValues, cl: Option<nat>) -> SpecHeaders {
    SpecHeaders {
        accept_encoding: spec_accept_encoding(hv.accept_encoding),
        user_agent: hv.user_agent,
        content_type: hv.content_type,
        content_length: cl,
        connection: hv.connection,
    }
}

/// The parser, start to end: wait for the terminator; split the bytes before
/// it into lines; the first line must be a well-formed request line and the
/// rest are header lines; the body is exactly the declared number of bytes
/// after the terminator, and must already be buffered in full. A complete
/// request consumes the header block, the terminator and the body, and
/// nothing more.
pub open spec fn spec_parse_request(s: Seq<u8>) -> SpecParseOutcome {
    match spec_find(s, terminator()) {
        None => SpecParseOutcome::Incomplete,
        Some(h) => {
            let lines = split_crlf(s.subrange(0, h));
            match spec_parse_request_line(lines[0]) {
                None => SpecParseOutcome::Malformed(MalformReason::RequestLine),
                Some(rl) => {
                    let hv = spec_fold_headers(lines.drop_first());
                    match spec_content_length(hv.content_length) {
                        None => SpecParseOutcome::Malformed(MalformReason::ContentLength),
                        Some(cl_opt) => {
                            let cl: int = match cl_opt {
                                Some(c) => c as int,
                                None => 0,
                            };
                            if s.len() < h + 4 + cl {
                                SpecParseOutcome::Incomplete
                            } else {
                                SpecParseOutcome::Complete(
                                    SpecRequest {
                                        request_line: rl,
                                        headers: spec_interpret_headers(hv, cl_opt),
                                        body: s.subrange(h + 4, h + 4 + cl),
                                    },
                                    h + 4 + cl,
                                )
                            }
                        },
                    }
                },
            }
        },
    }
}

/// Parses the buffered bytes into a request, or reports that more bytes are
/// needed or that the request is malformed.
pub fn parse_request(buf: &[u8]) -> (r: ParseOutcome)
    ensures
        match r {
            ParseOutcome::Incomplete => spec_parse_request(buf@) is Incomplete,
            ParseOutcome::Malformed(w) => spec_parse_request(buf@) == SpecParseOutcome::Malformed(
                w,
            ),
            ParseOutcome::Complete(req, used) => spec_parse_request(buf@)
                == SpecParseOutcome::Complete(req@, used as int) && used <= buf@.len(),
        },
{
    let mut term: Vec<u8> = Vec::new();
    term.push(13);
    term.push(10);
    term.push(13);
    term.push(10);
    assert(term@ =~= terminator());
    let h = match find_sub(buf, term.as_slice()) {
        Some(h) => h,
        None => {
            return ParseOutcome::Incomplete;
        },
    };
    proof {
        lemma_find_some(buf@, terminator(), 0, h as int);
        assert(terminator().len() == 4);
    }
    let buf_len = buf.len();
    let block = slice_subrange(buf, 0, h);
    let mut lines = split_lines(block);
    proof {
        assert(split_crlf(block@).len() >= 1);
        assert(lines.deep_view().len() == lines@.len());
    }
    let ghost all_lines = lines.deep_view();
    let first = lines.remove(0);
    proof {
        assert(first@ == all_lines[0]);
        assert(lines.deep_view() =~~= all_lines.drop_first());
    }
    let rl = match parse_request_line(first.as_slice()) {
        Some(rl) => rl,
        None => {
            return ParseOutcome::Malformed(MalformReason::RequestLine);
        },
    };
    let hv = parse_headers(&lines);
    let cl_opt = match string_to_option_usize(&hv.content_length) {
        Some(c) => c,
        None => {
            return ParseOutcome::Malformed(MalformReason::ContentLength);
        },
    };
    let cl: usize = match cl_opt {
        Some(c) => c,
        None => 0,
    };
    if cl > buf_len - (h + 4) {
        return ParseOutcome::Incomplete;
    }
    let body_start = h + 4;
    let body = slice_to_vec(slice_subrange(buf, body_start, body_start + cl));
    let accept_encoding = encoder_type(&hv.accept_encoding);
    let headers = Headers {
        accept_encoding,
        user_agent: hv.user_agent,
        content_type: hv.content_type,
        content_length: cl_opt,
        connection: hv.connection,
    };
    let request = Request { request_line: rl, headers, body };
    ParseOutcome::Complete(request, body_start + cl)
}

/// A complete request is internally consistent: its body holds exactly the
/// number of bytes its `Content-Length` header declared — none when the
/// header was absent or empty — and the consumed bytes are the header block,
/// the terminator and that body, nothing more.
pub proof fn lemma_body_length_declared(s: Seq<u8>)
    requires
        spec_parse_request(s) is Complete,
    ensures
        spec_parse_request(s) matches SpecParseOutcome::Complete(req, used) && {
            &&& req.body.len() == match req.headers.content_length {
                Some(n) => n,
                None => 0,
            }
            &&& 0 <= used <= s.len()
            &&& req.body == s.subrange(used - req.body.len(), used)
        },
{
    let h = spec_find(s, terminator())->Some_0;
    lemma_find_some(s, terminator(), 0, h);
}

/// Parsing is framed: a buffer that parses to a complete request parses to
/// the very same request, consuming the very same number of bytes, after any
/// further bytes — a pipelined second request — are appended; and what the
/// appended bytes add to the buffer stays behind the consumed ones, exactly
/// as it arrived.
pub proof fn lemma_parse_pipelined(s1: Seq<u8>, s2: Seq<u8>)
    requires
        spec_parse_request(s1) is Complete,
    ensures
        spec_parse_request(s1 + s2) == spec_parse_request(s1),
        spec_parse_request(s1) matches SpecParseOutcome::Complete(req, used) ==> 0 <= used
            <= s1.len() && (s1 + s2).skip(used) == s1.skip(used) + s2,
{
    let s = s1 + s2;
    let h = spec_find(s1, terminator())->Some_0;
    lemma_find_some(s1, terminator(), 0, h);
    assert(s.subrange(h, h + 4) =~= s1.subrange(h, h + 4));
    match spec_find(s, terminator()) {
        None => {
            lemma_find_none(s, terminator(), 0);
            assert(false);
        },
        Some(h2) => {
            lemma_find_some(s, terminator(), 0, h2);
            if h2 < h {
                assert(s1.subrange(h2, h2 + 4) =~= s.subrange(h2, h2 + 4));
                assert(false);
            }
            if h2 > h {
                assert(false);
            }
        },
    }
    assert(s.subrange(0, h) =~= s1.subrange(0, h));
    let lines = split_crlf(s1.subrange(0, h));
    let rl = spec_parse_request_line(lines[0])->Some_0;
    let hv = spec_fold_headers(lines.drop_first());
    let cl_opt = spec_content_length(hv.content_length)->Some_0;
    let cl: int = match cl_opt {
        Some(c) => c as int,
        None => 0,
    };
    assert(s1.len() >= h + 4 + cl);
    assert(s.subrange(h + 4, h + 4 + cl) =~= s1.subrange(h + 4, h + 4 + cl));
    let used = h + 4 + cl;
    assert(s.skip(used) =~= s1.skip(used) + s2);
}

} // verus!
