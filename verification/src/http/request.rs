//! The incremental HTTP/1.1 request parser.
//!
//! `HttpRequest::parse` looks at a growing byte buffer and either
//! returns a complete request or `None`, meaning: read more bytes.

use vstd::prelude::*;

use crate::http::response::{spec_header_lookup, spec_set_header};
use crate::tokens;
use crate::util;

verus! {

/// A parsed request: method, path, raw query, version, headers in
/// insertion order (an insertion with an already-present name replaces
/// its value), and body bytes.
#[derive(Debug, Clone)]
pub struct HttpRequest {
    pub method: Vec<u8>,
    pub path: Vec<u8>,
    pub query: Vec<u8>,
    pub version: Vec<u8>,
    pub headers: Vec<(Vec<u8>, Vec<u8>)>,
    pub body: Vec<u8>,
}

/// The mathematical value of a parsed request.
#[verifier::ext_equal]
pub ghost struct ReqModel {
    pub method: Seq<u8>,
    pub path: Seq<u8>,
    pub query: Seq<u8>,
    pub version: Seq<u8>,
    pub headers: Seq<(Seq<u8>, Seq<u8>)>,
    pub body: Seq<u8>,
}

impl View for HttpRequest {
    type V = ReqModel;

    open spec fn view(&self) -> ReqModel {
        ReqModel {
            method: self.method@,
            path: self.path@,
            query: self.query@,
            version: self.version@,
            headers: self.headers.deep_view(),
            body: self.body@,
        }
    }
}

/// First position at or after `i` where `p` occurs in `s`; `None` if
/// it does not occur there.
pub open spec fn spec_find(s: Seq<u8>, p: Seq<u8>, i: int) -> Option<int>
    decreases s.len() + 1 - i when 0 <= i
{
    if i + p.len() > s.len() {
        None
    } else if s.subrange(i, i + p.len() as int) == p {
        Some(i)
    } else {
        spec_find(s, p, i + 1)
    }
}

pub proof fn lemma_spec_find(s: Seq<u8>, p: Seq<u8>, i: int)
    requires
        0 <= i,
    ensures
        match spec_find(s, p, i) {
            Some(j) => i <= j && util::match_at(s, p, j) && (forall|k: int|
                i <= k < j ==> !util::match_at(s, p, k)),
            None => forall|k: int| i <= k ==> !util::match_at(s, p, k),
        },
    decreases s.len() + 1 - i,
{
    if i + p.len() > s.len() {
        assert(forall|k: int| i <= k ==> !util::match_at(s, p, k));
    } else if s.subrange(i, i + p.len() as int) == p {
    } else {
        lemma_spec_find(s, p, i + 1);
    }
}

/// Executable first-occurrence search agreeing with `spec_find`.
pub fn find_from(s: &[u8], p: &[u8], from: usize) -> (r: Option<usize>)
    ensures
        match r {
            Some(i) => spec_find(s@, p@, from as int) == Some(i as int) && i + p@.len()
                <= s@.len(),
            None => spec_find(s@, p@, from as int) is None,
        },
{
    proof {
        lemma_spec_find(s@, p@, from as int);
    }
    let r = util::find_at(s, p, from);
    match r {
        Some(i) => {
            proof {
                match spec_find(s@, p@, from as int) {
                    Some(j) => {
                        assert(!(j < i)) by {
                            assert(util::match_at(s@, p@, j));
                        }
                        assert(!(i < j)) by {
                            assert(util::match_at(s@, p@, i as int));
                        }
                    },
                    None => {
                        assert(util::match_at(s@, p@, i as int));
                        assert(false);
                    },
                }
            }
            Some(i)
        },
        None => {
            proof {
                let sf = spec_find(s@, p@, from as int);
                if sf is Some {
                    assert(util::match_at(s@, p@, sf->Some_0));
                    assert(false);
                }
            }
            None
        },
    }
}

/// Position of the first `\r\n\r\n` in the buffer.
pub open spec fn spec_find_double_crlf(buffer: Seq<u8>) -> Option<int> {
    spec_find(buffer, tokens::spec_crlf_crlf(), 0)
}

/// Finds the header terminator `\r\n\r\n`.
pub fn find_double_crlf(buffer: &[u8]) -> (r: Option<usize>)
    ensures
        match r {
            Some(i) => spec_find_double_crlf(buffer@) == Some(i as int) && i + 4 <= buffer@.len(),
            None => spec_find_double_crlf(buffer@) is None,
        },
{
    let pat = tokens::crlf_crlf();
    find_from(buffer, pat.as_slice(), 0)
}

/// The lines of a header section: split at `\n`, one trailing `\r`
/// removed from each line.
pub open spec fn spec_lines(s: Seq<u8>) -> Seq<Seq<u8>> {
    util::spec_split(s, '\n' as u8).map_values(
        |line: Seq<u8>|
            if line.len() > 0 && line.last() == 13u8 {
                line.drop_last()
            } else {
                line
            },
    )
}

/// Splits a header section into lines.
pub fn header_lines(s: &[u8]) -> (r: Vec<Vec<u8>>)
    ensures
        r.deep_view() == spec_lines(s@),
{
    let raw = util::split_byte(s, '\n' as u8);
    let ghost all = raw.deep_view();
    let mut out: Vec<Vec<u8>> = Vec::new();
    let mut i: usize = 0;
    while i < raw.len()
        invariant
            0 <= i <= raw.len(),
            all == raw.deep_view(),
            all.len() == raw@.len(),
            out@.len() == i,
            forall|j: int| 0 <= j < i ==> out.deep_view()[j] == spec_lines(s@)[j],
            all == util::spec_split(s@, '\n' as u8),
        decreases raw.len() - i,
    {
        assert(all[i as int] == raw@[i as int]@);
        let ghost old_dv = out.deep_view();
        let ghost cur = all[i as int];
        let line = &raw[i];
        let n = line.len();
        if n > 0 && line[n - 1] == 13u8 {
            assert(cur.len() > 0 && cur.last() == 13u8);
            let stripped = util::subvec(line.as_slice(), 0, n - 1);
            proof {
                assert(stripped@ =~= cur.drop_last());
            }
            out.push(stripped);
        } else {
            assert(!(cur.len() > 0 && cur.last() == 13u8));
            out.push(vstd::slice::slice_to_vec(line.as_slice()));
        }
        proof {
            assert(out.deep_view() =~~= old_dv.push(spec_lines(s@)[i as int]));
        }
        i = i + 1;
    }
    assert(out.deep_view() =~~= spec_lines(s@));
    out
}

/// The result of splitting a request line: method, path, query,
/// version.
#[verifier::ext_equal]
pub ghost struct ReqLineModel {
    pub method: Seq<u8>,
    pub path: Seq<u8>,
    pub query: Seq<u8>,
    pub version: Seq<u8>,
}

/// Meaning of a request line: at least three whitespace-separated
/// tokens — method, target, version — with the target split at its
/// first `?` into path and query.
pub open spec fn spec_parse_request_line(line: Seq<u8>) -> Option<ReqLineModel> {
    let toks = util::spec_ws_tokens(line);
    if toks.len() < 3 {
        None
    } else {
        let target = toks[1];
        let pq = match spec_find(target, seq!['?' as u8], 0) {
            Some(q) => (target.take(q), target.skip(q + 1)),
            None => (target, Seq::<u8>::empty()),
        };
        Some(
            ReqLineModel {
                method: toks[0],
                path: pq.0,
                query: pq.1,
                version: toks[2],
            },
        )
    }
}

/// Parses the request line into method, path, query and version.
pub fn parse_request_line(line: &[u8]) -> (r: Option<(Vec<u8>, Vec<u8>, Vec<u8>, Vec<u8>)>)
    ensures
        r is Some <==> spec_parse_request_line(line@) is Some,
        r matches Some(t) ==> {
            let m = spec_parse_request_line(line@)->Some_0;
            t.0@ == m.method && t.1@ == m.path && t.2@ == m.query && t.3@ == m.version
        },
{
    let toks = util::ws_tokens(line);
    if toks.len() < 3 {
        return None;
    }
    assert(toks.deep_view()[0] == toks@[0]@);
    assert(toks.deep_view()[1] == toks@[1]@);
    assert(toks.deep_view()[2] == toks@[2]@);
    let method = vstd::slice::slice_to_vec(toks[0].as_slice());
    let target = &toks[1];
    let version = vstd::slice::slice_to_vec(toks[2].as_slice());
    let qmark: Vec<u8> = vec!['?' as u8];
    assert(qmark@ =~= seq!['?' as u8]);
    let (path, query) = match find_from(target.as_slice(), qmark.as_slice(), 0) {
        Some(q) => {
            let tlen = target.len();
            let p = util::subvec(target.as_slice(), 0, q);
            let qs = util::subvec(target.as_slice(), q + 1, tlen);
            assert(qs@ =~= target@.skip(q + 1));
            assert(p@ =~= target@.take(q as int));
            (p, qs)
        },
        None => (vstd::slice::slice_to_vec(target.as_slice()), Vec::new()),
    };
    Some((method, path, query, version))
}

/// Headers accumulated from a sequence of lines: a line with a colon
/// contributes its trimmed name and value, later values replacing
/// earlier ones of exactly the same name; other lines are skipped.
pub open spec fn spec_accumulate_headers(
    acc: Seq<(Seq<u8>, Seq<u8>)>,
    lines: Seq<Seq<u8>>,
) -> Seq<(Seq<u8>, Seq<u8>)>
    decreases lines.len(),
{
    if lines.len() == 0 {
        acc
    } else {
        let line = lines[0];
        let next = match spec_find(line, seq![':' as u8], 0) {
            Some(c) => spec_set_header(
                acc,
                util::spec_trim(line.take(c)),
                util::spec_trim(line.skip(c + 1)),
            ),
            None => acc,
        };
        spec_accumulate_headers(next, lines.skip(1))
    }
}

/// The headers of a header section's lines.
pub open spec fn spec_parse_headers(lines: Seq<Seq<u8>>) -> Seq<(Seq<u8>, Seq<u8>)> {
    spec_accumulate_headers(Seq::empty(), lines)
}

/// Parses `Key: Value` lines; a later line with exactly the same name
/// replaces the earlier value.
pub fn parse_headers(lines: &Vec<Vec<u8>>, start: usize) -> (r: Vec<(Vec<u8>, Vec<u8>)>)
    requires
        start <= lines@.len(),
    ensures
        r.deep_view() == spec_parse_headers(lines.deep_view().skip(start as int)),
{
    let ghost all = lines.deep_view().skip(start as int);
    let mut out: Vec<(Vec<u8>, Vec<u8>)> = Vec::new();
    let mut i: usize = start;
    proof {
        assert(out.deep_view() =~~= Seq::<(Seq<u8>, Seq<u8>)>::empty());
        assert(lines.deep_view().skip(start as int).skip(0) =~~= all);
    }
    while i < lines.len()
        invariant
            start <= i <= lines@.len(),
            all == lines.deep_view().skip(start as int),
            all.len() == lines@.len() - start,
            spec_parse_headers(all) == spec_accumulate_headers(
                out.deep_view(),
                all.skip(i - start),
            ),
        decreases lines.len() - i,
    {
        let ghost rest = all.skip(i - start);
        proof {
            assert(rest.len() > 0);
            assert(rest[0] == lines.deep_view()[i as int]);
            assert(lines.deep_view()[i as int] == lines@[i as int]@);
            assert(rest.skip(1) =~~= all.skip(i - start + 1));
        }
        let line = &lines[i];
        let colon: Vec<u8> = vec![':' as u8];
        assert(colon@ =~= seq![':' as u8]);
        match find_from(line.as_slice(), colon.as_slice(), 0) {
            Some(c) => {
                let llen = line.len();
                let key_raw = vstd::slice::slice_subrange(line.as_slice(), 0, c);
                let val_raw = vstd::slice::slice_subrange(line.as_slice(), c + 1, llen);
                assert(val_raw@ =~= rest[0].skip(c + 1));
                assert(key_raw@ =~= rest[0].take(c as int));
                let key = util::trim(key_raw);
                let val = util::trim(val_raw);
                let ghost pre = out.deep_view();
                set_header_pair(&mut out, key, val);
                proof {
                    assert(out.deep_view() == spec_set_header(pre, util::spec_trim(rest[0].take(c as int)), util::spec_trim(rest[0].skip(c + 1))));
                }
            },
            None => {
            },
        }
        i = i + 1;
    }
    proof {
        assert(all.skip(i - start) =~~= Seq::<Seq<u8>>::empty());
    }
    out
}

/// Inserts a pair into a header list, replacing the first entry with
/// exactly the same name.
fn set_header_pair(out: &mut Vec<(Vec<u8>, Vec<u8>)>, key: Vec<u8>, value: Vec<u8>)
    ensures
        final(out).deep_view() == spec_set_header(old(out).deep_view(), key@, value@),
{
    let ghost hs = out.deep_view();
    let mut i: usize = 0;
    while i < out.len()
        invariant
            0 <= i <= out.len(),
            hs == out.deep_view(),
            hs == old(out).deep_view(),
            hs.len() == out@.len(),
            forall|j: int| 0 <= j < i ==> (#[trigger] hs[j]).0 != key@,
        decreases out.len() - i,
    {
        assert(hs[i as int].0 == out@[i as int].0@);
        if util::bytes_eq(out[i].0.as_slice(), key.as_slice()) {
            let ghost ki = i as int;
            out.set(i, (key, value));
            proof {
                assert(out.deep_view() =~~= hs.update(ki, (key@, value@)));
                crate::http::response::lemma_set_header_found(hs, key@, value@, ki);
            }
            return ;
        }
        i = i + 1;
    }
    let ghost pre = out.deep_view();
    out.push((key, value));
    proof {
        assert(out.deep_view() =~~= pre.push((key@, value@)));
        crate::http::response::lemma_set_header_missing(hs, key@, value@);
    }
}

/// Is `chunked` mentioned in a Transfer-Encoding value, compared
/// case-insensitively?
pub open spec fn spec_mentions_chunked(te: Seq<u8>) -> bool {
    exists|i: int| util::match_at(util::spec_lower(te), tokens::spec_chunked(), i)
}

/// Meaning of a buffer as an HTTP request, or `None` when no complete
/// request is present yet: a header section closed by `\r\n\r\n`, a
/// request line of method, target and version, `Key: Value` headers,
/// and a body framed by `Content-Length`, by chunked transfer
/// encoding, or absent.
pub open spec fn spec_parse_request(buf: Seq<u8>) -> Option<ReqModel> {
    match spec_find_double_crlf(buf) {
        None => None,
        Some(he) => {
            let lines = spec_lines(buf.take(he));
            match spec_parse_request_line(lines[0]) {
                None => None,
                Some(rl) => {
                    let headers = spec_parse_headers(lines.skip(1));
                    let body_start = he + 4;
                    match spec_header_lookup(headers, tokens::spec_content_length()) {
                        Some(lv) => {
                            if !(lv.len() > 0 && util::all_digits(lv) && util::dec_value(lv)
                                <= usize::MAX) {
                                None
                            } else if buf.len() - body_start < util::dec_value(lv) {
                                None
                            } else {
                                Some(
                                    ReqModel {
                                        method: rl.method,
                                        path: rl.path,
                                        query: rl.query,
                                        version: rl.version,
                                        headers,
                                        body: buf.subrange(
                                            body_start,
                                            body_start + util::dec_value(lv),
                                        ),
                                    },
                                )
                            }
                        },
                        None => {
                            let te = spec_header_lookup(headers, tokens::spec_transfer_encoding());
                            if te is Some && spec_mentions_chunked(te->Some_0) {
                                match spec_parse_chunked(buf.skip(body_start)) {
                                    None => None,
                                    Some(b) => Some(
                                        ReqModel {
                                            method: rl.method,
                                            path: rl.path,
                                            query: rl.query,
                                            version: rl.version,
                                            headers,
                                            body: b,
                                        },
                                    ),
                                }
                            } else {
                                Some(
                                    ReqModel {
                                        method: rl.method,
                                        path: rl.path,
                                        query: rl.query,
                                        version: rl.version,
                                        headers,
                                        body: Seq::empty(),
                                    },
                                )
                            }
                        },
                    }
                },
            }
        },
    }
}

impl HttpRequest {
    /// Parses an HTTP request out of the buffer; `None` means the
    /// request is not complete yet and more bytes must be read.
    pub fn parse(buffer: &[u8]) -> (r: Option<Self>)
        ensures
            r is Some <==> spec_parse_request(buffer@) is Some,
            r matches Some(req) ==> Some(req@) == spec_parse_request(buffer@),
    {
        let blen = buffer.len();
        let he = match find_double_crlf(buffer) {
            Some(h) => h,
            None => {
                return None;
            },
        };
        let head = vstd::slice::slice_subrange(buffer, 0, he);
        proof {
            assert(head@ =~= buffer@.take(he as int));
        }
        let ghost slines = spec_lines(buffer@.take(he as int));
        let lines = header_lines(head);
        proof {
            util::lemma_split_len(head@, '\n' as u8);
            assert(lines.deep_view().len() == lines@.len());
            assert(lines.deep_view()[0] == lines@[0]@);
        }
        let rl = match parse_request_line(lines[0].as_slice()) {
            Some(t) => t,
            None => {
                return None;
            },
        };
        let headers = parse_headers(&lines, 1);
        proof {
            assert(lines.deep_view().skip(1) =~~= slines.skip(1));
        }
        let body_start = he + 4;
        let cl_name = tokens::content_length();
        match header_lookup(&headers, cl_name.as_slice()) {
            Some(lv) => {
                let expected = match util::parse_dec_usize(lv.as_slice()) {
                    Some(e) => e,
                    None => {
                        return None;
                    },
                };
                let available = blen - body_start;
                if available < expected {
                    return None;
                }
                let body = util::subvec(buffer, body_start, body_start + expected);
                let req = HttpRequest {
                    method: rl.0,
                    path: rl.1,
                    query: rl.2,
                    version: rl.3,
                    headers,
                    body,
                };
                proof {
                    assert(req@ =~~= spec_parse_request(buffer@)->Some_0);
                }
                Some(req)
            },
            None => {
                let te_name = tokens::transfer_encoding();
                match header_lookup(&headers, te_name.as_slice()) {
                    Some(te) => {
                        let te_lower = util::to_lower(te.as_slice());
                        let chunked_tok = tokens::chunked();
                        if util::contains_seq(te_lower.as_slice(), chunked_tok.as_slice()) {
                            let tail = vstd::slice::slice_subrange(buffer, body_start, blen);
                            proof {
                                assert(tail@ =~= buffer@.skip(body_start as int));
                            }
                            match parse_chunked_from_buffer(tail) {
                                Some(body) => {
                                    let req = HttpRequest {
                                        method: rl.0,
                                        path: rl.1,
                                        query: rl.2,
                                        version: rl.3,
                                        headers,
                                        body,
                                    };
                                    proof {
                                        assert(req@ =~~= spec_parse_request(buffer@)->Some_0);
                                    }
                                    Some(req)
                                },
                                None => None,
                            }
                        } else {
                            let req = HttpRequest {
                                method: rl.0,
                                path: rl.1,
                                query: rl.2,
                                version: rl.3,
                                headers,
                                body: Vec::new(),
                            };
                            proof {
                                assert(req@ =~~= spec_parse_request(buffer@)->Some_0);
                            }
                            Some(req)
                        }
                    },
                    None => {
                        let req = HttpRequest {
                            method: rl.0,
                            path: rl.1,
                            query: rl.2,
                            version: rl.3,
                            headers,
                            body: Vec::new(),
                        };
                        proof {
                            assert(req@ =~~= spec_parse_request(buffer@)->Some_0);
                        }
                        Some(req)
                    },
                }
            },
        }
    }
}

/// The chunks of a chunked body, in order; `None` when the framing is
/// not yet complete.
pub open spec fn spec_chunks(data: Seq<u8>) -> Option<Seq<Seq<u8>>>
    decreases data.len(),
        via spec_chunks_decreases
{
    match spec_find(data, tokens::spec_crlf(), 0) {
        None => None,
        Some(le) => {
            let size_str = util::spec_trim(data.take(le));
            if !(size_str.len() > 0 && util::all_hex_digits(size_str) && util::hex_value(size_str)
                <= usize::MAX) {
                None
            } else {
                let size = util::hex_value(size_str) as int;
                if size == 0 {
                    Some(Seq::empty())
                } else if le + 2 + size + 2 > data.len() {
                    None
                } else {
                    match spec_chunks(data.skip(le + 2 + size + 2)) {
                        None => None,
                        Some(rest) => Some(seq![data.subrange(le + 2, le + 2 + size)] + rest),
                    }
                }
            }
        },
    }
}

#[via_fn]
proof fn spec_chunks_decreases(data: Seq<u8>) {
    lemma_spec_find(data, tokens::spec_crlf(), 0);
}

/// The concatenation of a sequence of chunks.
pub open spec fn spec_concat_chunks(cs: Seq<Seq<u8>>) -> Seq<u8>
    decreases cs.len(),
{
    if cs.len() == 0 {
        Seq::empty()
    } else {
        cs[0] + spec_concat_chunks(cs.skip(1))
    }
}

/// A chunked body parses exactly when its chunk list does, and equals
/// the concatenation of the chunks.
pub proof fn lemma_chunked_is_concatenation(data: Seq<u8>)
    ensures
        spec_parse_chunked(data) is Some <==> spec_chunks(data) is Some,
        spec_parse_chunked(data) is Some ==> (spec_chunks(data) matches Some(cs)
            && spec_parse_chunked(data) == Some(spec_concat_chunks(cs))),
    decreases data.len(),
{
    lemma_spec_find(data, tokens::spec_crlf(), 0);
    match spec_find(data, tokens::spec_crlf(), 0) {
        None => {},
        Some(le) => {
            let size_str = util::spec_trim(data.take(le));
            if size_str.len() > 0 && util::all_hex_digits(size_str) && util::hex_value(size_str)
                <= usize::MAX {
                let size = util::hex_value(size_str) as int;
                if size == 0 {
                    assert(spec_concat_chunks(Seq::<Seq<u8>>::empty()) =~= Seq::<u8>::empty());
                } else if le + 2 + size + 2 <= data.len() {
                    lemma_chunked_is_concatenation(data.skip(le + 2 + size + 2));
                    let tail = spec_chunks(data.skip(le + 2 + size + 2));
                    if tail is Some {
                        let cs = tail->Some_0;
                        let chunk = data.subrange(le + 2, le + 2 + size);
                        assert((seq![chunk] + cs)[0] == chunk);
                        assert((seq![chunk] + cs).skip(1) =~~= cs);
                        assert(spec_concat_chunks(seq![chunk] + cs) == chunk
                            + spec_concat_chunks(cs));
                    }
                }
            }
        },
    }
}

/// Body framing by `Content-Length`: a parsed request that carries the
/// header has exactly that many body bytes.
pub proof fn lemma_content_length_frames_body(buf: Seq<u8>)
    requires
        spec_parse_request(buf) is Some,
        spec_header_lookup(
            spec_parse_request(buf)->Some_0.headers,
            tokens::spec_content_length(),
        ) is Some,
    ensures
        ({
            let r = spec_parse_request(buf)->Some_0;
            let lv = spec_header_lookup(r.headers, tokens::spec_content_length())->Some_0;
            r.body.len() == util::dec_value(lv)
        }),
{
    let he = spec_find_double_crlf(buf)->Some_0;
    let lines = spec_lines(buf.take(he));
    let headers = spec_parse_headers(lines.skip(1));
    let r = spec_parse_request(buf)->Some_0;
    assert(r.headers == headers);
    let cl = spec_header_lookup(headers, tokens::spec_content_length());
    assert(cl is Some);
    let lv = cl->Some_0;
    assert(util::match_at(buf, tokens::spec_crlf_crlf(), he)) by {
        lemma_spec_find(buf, tokens::spec_crlf_crlf(), 0);
    }
    assert(buf.len() - (he + 4) >= util::dec_value(lv));
    assert(r.body == buf.subrange(he + 4, he + 4 + util::dec_value(lv)));
    assert(r.body.len() == util::dec_value(lv));
}

/// Body framing by chunked transfer encoding: a parsed request whose
/// body came from chunked framing carries the concatenation of the
/// chunks that followed the header section.
pub proof fn lemma_chunked_body_is_concatenation(buf: Seq<u8>)
    requires
        spec_parse_request(buf) is Some,
        ({
            let r = spec_parse_request(buf)->Some_0;
            &&& spec_header_lookup(r.headers, tokens::spec_content_length()) is None
            &&& spec_header_lookup(r.headers, tokens::spec_transfer_encoding()) matches Some(te)
                && spec_mentions_chunked(te)
        }),
    ensures
        ({
            let r = spec_parse_request(buf)->Some_0;
            let body_start = spec_find_double_crlf(buf)->Some_0 + 4;
            &&& spec_chunks(buf.skip(body_start)) is Some
            &&& r.body == spec_concat_chunks(spec_chunks(buf.skip(body_start))->Some_0)
        }),
{
    let he = spec_find_double_crlf(buf)->Some_0;
    lemma_chunked_is_concatenation(buf.skip(he + 4));
}

/// A pattern match in a suffix is a shifted match in the whole.
pub proof fn lemma_match_at_shift(s: Seq<u8>, p: Seq<u8>, off: int, j: int)
    requires
        0 <= off <= s.len(),
        0 <= j,
    ensures
        util::match_at(s.skip(off), p, j) <==> util::match_at(s, p, off + j),
{
    if j + p.len() <= s.len() - off {
        assert(s.skip(off).subrange(j, j + p.len() as int) =~= s.subrange(
            off + j,
            off + j + p.len() as int,
        ));
    }
}

/// First occurrence of `p` in the suffix of `s` that starts at `pos`,
/// reported relative to that suffix.
fn find_in_suffix(s: &[u8], p: &[u8], pos: usize) -> (r: Option<usize>)
    requires
        pos <= s@.len(),
    ensures
        match r {
            Some(i) => spec_find(s@.skip(pos as int), p@, 0) == Some(i as int) && pos + i + p@.len()
                <= s@.len(),
            None => spec_find(s@.skip(pos as int), p@, 0) is None,
        },
{
    proof {
        lemma_spec_find(s@.skip(pos as int), p@, 0);
        assert(forall|j: int|
            0 <= j ==> (util::match_at(s@.skip(pos as int), p@, j) <==> util::match_at(
                s@,
                p@,
                pos + j,
            ))) by {
            assert forall|j: int| 0 <= j implies (util::match_at(s@.skip(pos as int), p@, j)
                <==> util::match_at(s@, p@, pos + j)) by {
                lemma_match_at_shift(s@, p@, pos as int, j);
            }
        }
    }
    match util::find_at(s, p, pos) {
        Some(g) => {
            let i = g - pos;
            proof {
                assert(util::match_at(s@, p@, g as int));
                assert(util::match_at(s@.skip(pos as int), p@, i as int));
                let sf = spec_find(s@.skip(pos as int), p@, 0);
                if sf is None {
                    assert(false);
                }
                let j = sf->Some_0;
                assert(util::match_at(s@.skip(pos as int), p@, j));
                assert(util::match_at(s@, p@, pos + j));
                if j < i {
                    assert(false);
                }
                if i < j {
                    assert(false);
                }
            }
            Some(i)
        },
        None => {
            proof {
                let sf = spec_find(s@.skip(pos as int), p@, 0);
                if sf is Some {
                    let j = sf->Some_0;
                    assert(util::match_at(s@.skip(pos as int), p@, j));
                    assert(util::match_at(s@, p@, pos + j));
                    assert(false);
                }
            }
            None
        },
    }
}

/// The body denoted by chunked framing: hex size line, that many
/// bytes, a separator, repeated until a zero size; `None` when the
/// framing is not yet complete in the buffer.
pub open spec fn spec_parse_chunked(data: Seq<u8>) -> Option<Seq<u8>>
    decreases data.len(),
        via spec_parse_chunked_decreases
{
    match spec_find(data, tokens::spec_crlf(), 0) {
        None => None,
        Some(le) => {
            let size_str = util::spec_trim(data.take(le));
            if !(size_str.len() > 0 && util::all_hex_digits(size_str) && util::hex_value(size_str)
                <= usize::MAX) {
                None
            } else {
                let size = util::hex_value(size_str) as int;
                if size == 0 {
                    Some(Seq::empty())
                } else if le + 2 + size + 2 > data.len() {
                    None
                } else {
                    match spec_parse_chunked(data.skip(le + 2 + size + 2)) {
                        None => None,
                        Some(rest) => Some(data.subrange(le + 2, le + 2 + size) + rest),
                    }
                }
            }
        },
    }
}

#[via_fn]
proof fn spec_parse_chunked_decreases(data: Seq<u8>) {
    lemma_spec_find(data, tokens::spec_crlf(), 0);
}

/// Value of the last header whose name equals `name` up to ASCII
/// case, copied out.
pub fn header_lookup(headers: &Vec<(Vec<u8>, Vec<u8>)>, name: &[u8]) -> (r: Option<Vec<u8>>)
    ensures
        r is Some <==> spec_header_lookup(headers.deep_view(), name@) is Some,
        r matches Some(v) ==> Some(v@) == spec_header_lookup(headers.deep_view(), name@),
{
    let ghost hs = headers.deep_view();
    let mut i: usize = headers.len();
    proof {
        assert(hs.take(hs.len() as int) =~~= hs);
    }
    while i > 0
        invariant
            0 <= i <= headers@.len(),
            hs == headers.deep_view(),
            hs.len() == headers@.len(),
            spec_header_lookup(hs, name@) == spec_header_lookup(hs.take(i as int), name@),
        decreases i,
    {
        let ghost pre = hs.take(i as int);
        proof {
            assert(pre.last() == hs[i - 1]);
            assert(pre.drop_last() =~~= hs.take(i - 1));
            assert(hs[i - 1].0 == headers@[i - 1].0@);
            assert(hs[i - 1].1 == headers@[i - 1].1@);
        }
        if util::eq_ignore_case(headers[i - 1].0.as_slice(), name) {
            return Some(vstd::slice::slice_to_vec(headers[i - 1].1.as_slice()));
        }
        i = i - 1;
    }
    proof {
        assert(hs.take(0) =~~= Seq::<(Seq<u8>, Seq<u8>)>::empty());
    }
    None
}

/// Parses a chunked body out of the bytes that follow the header
/// terminator; `None` asks for more bytes.
pub fn parse_chunked_from_buffer(data: &[u8]) -> (r: Option<Vec<u8>>)
    ensures
        r is Some <==> spec_parse_chunked(data@) is Some,
        r matches Some(v) ==> Some(v@) == spec_parse_chunked(data@),
{
    let mut body: Vec<u8> = Vec::new();
    let mut pos: usize = 0;
    let total = data.len();
    let crlf = tokens::crlf();
    proof {
        assert(data@.skip(0) =~= data@);
    }
    loop
        invariant
            0 <= pos <= data@.len(),
            total == data@.len(),
            crlf@ == tokens::spec_crlf(),
            spec_parse_chunked(data@) is Some <==> spec_parse_chunked(data@.skip(pos as int))
                is Some,
            (spec_parse_chunked(data@.skip(pos as int)) matches Some(rest) ==> spec_parse_chunked(
                data@,
            ) == Some(body@ + rest)),
        decreases data@.len() - pos,
    {
        let ghost suffix = data@.skip(pos as int);
        let le = match find_in_suffix(data, crlf.as_slice(), pos) {
            Some(le) => le,
            None => {
                return None;
            },
        };
        let size_line = util::subvec(data, pos, pos + le);
        proof {
            assert(size_line@ =~= suffix.take(le as int));
        }
        let size_str = util::trim(size_line.as_slice());
        let size = match util::parse_hex_usize(size_str.as_slice()) {
            Some(s) => s,
            None => {
                return None;
            },
        };
        if size == 0 {
            assert(spec_parse_chunked(suffix) == Some(Seq::<u8>::empty()));
            assert(body@ + Seq::<u8>::empty() =~= body@);
            return Some(body);
        }
        let after_size = pos + le + 2;
        let rem = total - after_size;
        if rem < 2 || size > rem - 2 {
            assert(le + 2 + size + 2 > suffix.len());
            return None;
        }
        let chunk = vstd::slice::slice_subrange(data, after_size, after_size + size);
        let ghost old_body = body@;
        body.extend_from_slice(chunk);
        proof {
            assert(chunk@ =~= suffix.subrange(le + 2, le + 2 + size));
            assert(data@.skip(after_size + size as int + 2) =~= suffix.skip(
                le + 2 + size as int + 2,
            ));
        }
        pos = after_size + size + 2;
        proof {
            let nsuffix = data@.skip(pos as int);
            assert(nsuffix == suffix.skip(le + 2 + size as int + 2));
            assert(spec_parse_chunked(suffix) is Some <==> spec_parse_chunked(nsuffix) is Some);
            let pc = spec_parse_chunked(nsuffix);
            if pc is Some {
                let rest = pc->Some_0;
                assert(spec_parse_chunked(suffix) == Some(
                    suffix.subrange(le + 2, le + 2 + size as int) + rest,
                ));
                assert(old_body + (chunk@ + rest) =~= body@ + rest);
            }
        }
    }
}

} // verus!
