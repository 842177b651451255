//! The serialization round trip: a well-formed response, written to
//! its wire form and parsed back, yields the same status, headers and
//! body.

use vstd::prelude::*;

use crate::http::request::{
    lemma_spec_find, spec_find, spec_find_double_crlf, spec_lines, spec_parse_headers,
};
use crate::http::response::{
    spec_has_header_ci, spec_header_lookup, spec_serialize, spec_set_header, HttpResponse,
};
use crate::tokens;
use crate::util;

verus! {

/// A sequence free of carriage returns and line feeds.
pub open spec fn line_clean(s: Seq<u8>) -> bool {
    !s.contains(13u8) && !s.contains(10u8)
}

/// Lines written out, each closed by `\r\n`.
pub open spec fn lines_block(ls: Seq<Seq<u8>>) -> Seq<u8>
    decreases ls.len(),
{
    if ls.len() == 0 {
        Seq::empty()
    } else {
        ls[0] + tokens::spec_crlf() + lines_block(ls.skip(1))
    }
}

/// Lines joined by `\r\n`, with no closing one.
pub open spec fn joined_lines(ls: Seq<Seq<u8>>) -> Seq<u8>
    decreases ls.len(),
{
    if ls.len() == 0 {
        Seq::empty()
    } else if ls.len() == 1 {
        ls[0]
    } else {
        ls[0] + tokens::spec_crlf() + joined_lines(ls.skip(1))
    }
}

proof fn lemma_lines_block_add(a: Seq<Seq<u8>>, b: Seq<Seq<u8>>)
    ensures
        lines_block(a + b) == lines_block(a) + lines_block(b),
    decreases a.len(),
{
    if a.len() == 0 {
        assert(a + b =~~= b);
        assert(lines_block(a) =~= Seq::<u8>::empty());
        assert(lines_block(a) + lines_block(b) =~= lines_block(b));
    } else {
        lemma_lines_block_add(a.skip(1), b);
        assert((a + b).skip(1) =~~= a.skip(1) + b);
        assert((a + b)[0] == a[0]);
        assert(a[0] + tokens::spec_crlf() + (lines_block(a.skip(1)) + lines_block(b)) =~= (a[0]
            + tokens::spec_crlf() + lines_block(a.skip(1))) + lines_block(b));
    }
}

proof fn lemma_block_is_joined_plus_crlf(ls: Seq<Seq<u8>>)
    requires
        ls.len() >= 1,
    ensures
        lines_block(ls) == joined_lines(ls) + tokens::spec_crlf(),
    decreases ls.len(),
{
    if ls.len() == 1 {
        assert(lines_block(ls.skip(1)) =~= Seq::<u8>::empty());
        assert(lines_block(ls) =~= ls[0] + tokens::spec_crlf());
        assert(joined_lines(ls) + tokens::spec_crlf() =~= ls[0] + tokens::spec_crlf());
    } else {
        lemma_block_is_joined_plus_crlf(ls.skip(1));
        assert(ls[0] + tokens::spec_crlf() + (joined_lines(ls.skip(1)) + tokens::spec_crlf()) =~= (
        ls[0] + tokens::spec_crlf() + joined_lines(ls.skip(1))) + tokens::spec_crlf());
    }
}

/// When a match exists at `i` and nowhere before, the search finds it.
proof fn lemma_find_exact(s: Seq<u8>, p: Seq<u8>, i: int)
    requires
        0 <= i,
        util::match_at(s, p, i),
        forall|j: int| 0 <= j < i ==> !util::match_at(s, p, j),
    ensures
        spec_find(s, p, 0) == Some(i),
{
    lemma_spec_find(s, p, 0);
    match spec_find(s, p, 0) {
        None => {
            assert(false);
        },
        Some(j) => {
            if j < i {
                assert(util::match_at(s, p, j));
                assert(false);
            }
            if i < j {
                assert(false);
            }
        },
    }
}

/// In clean, non-empty lines closed by `\r\n` and followed by a blank
/// line, the first `\r\n\r\n` sits two bytes before the block's end.
proof fn lemma_first_terminator(ls: Seq<Seq<u8>>, tail: Seq<u8>)
    requires
        ls.len() >= 1,
        forall|i: int| 0 <= i < ls.len() ==> line_clean(#[trigger] ls[i]),
        forall|i: int| 0 <= i < ls.len() ==> (#[trigger] ls[i]).len() > 0,
    ensures
        spec_find(
            lines_block(ls) + tokens::spec_crlf() + tail,
            tokens::spec_crlf_crlf(),
            0,
        ) == Some(lines_block(ls).len() - 2),
    decreases ls.len(),
{
    let p = tokens::spec_crlf_crlf();
    let x = lines_block(ls) + tokens::spec_crlf() + tail;
    let l = ls[0];
    let n = l.len() as int;
    if ls.len() == 1 {
        assert(lines_block(ls.skip(1)) =~= Seq::<u8>::empty());
        assert(x =~= l + tokens::spec_crlf() + tokens::spec_crlf() + tail);
        assert forall|j: int| 0 <= j < n implies !util::match_at(x, p, j) by {
            assert(x[j] == l[j]);
            assert(l[j] != 13u8) by {
                if l[j] == 13u8 {
                    assert(l.contains(13u8));
                }
            }
            if util::match_at(x, p, j) {
                assert(x.subrange(j, j + 4)[0] == x[j]);
            }
        }
        assert(util::match_at(x, p, n)) by {
            assert(x.subrange(n, n + 4) =~= p);
        }
        lemma_find_exact(x, p, n);
        assert(lines_block(ls).len() - 2 == n);
    } else {
        let rest = ls.skip(1);
        let xr = lines_block(rest) + tokens::spec_crlf() + tail;
        lemma_first_terminator(rest, tail);
        assert(x =~= l + tokens::spec_crlf() + xr);
        // No terminator can start inside the first line or its CRLF.
        assert forall|j: int| 0 <= j < n + 2 implies !util::match_at(x, p, j) by {
            if j < n {
                assert(x[j] == l[j]);
                assert(l[j] != 13u8) by {
                    if l[j] == 13u8 {
                        assert(l.contains(13u8));
                    }
                }
                if util::match_at(x, p, j) {
                    assert(x.subrange(j, j + 4)[0] == x[j]);
                }
            } else if j == n {
                // The bytes at n..n+4 are \r \n then the first byte of
                // the next line, which is clean and non-empty.
                assert(rest[0].len() > 0);
                assert(lines_block(rest)[0] == rest[0][0]);
                assert(x[n + 2] == xr[0]);
                assert(xr[0] == rest[0][0]);
                assert(rest[0][0] != 13u8) by {
                    if rest[0][0] == 13u8 {
                        assert(rest[0].contains(13u8));
                    }
                }
                if util::match_at(x, p, j) {
                    assert(x.subrange(j, j + 4)[2] == x[j + 2]);
                }
            } else {
                assert(x[j] == 10u8);
                if util::match_at(x, p, j) {
                    assert(x.subrange(j, j + 4)[0] == x[j]);
                }
            }
        }
        // Beyond them, matches shift into the rest of the block.
        let fr = spec_find(xr, p, 0)->Some_0;
        lemma_spec_find(xr, p, 0);
        assert(util::match_at(xr, p, fr));
        assert(x.skip(n + 2) =~= xr);
        assert forall|j: int| n + 2 <= j < n + 2 + fr implies !util::match_at(x, p, j) by {
            crate::http::request::lemma_match_at_shift(x, p, n + 2, j - (n + 2));
            assert(!util::match_at(xr, p, j - (n + 2)));
        }
        assert(util::match_at(x, p, n + 2 + fr)) by {
            crate::http::request::lemma_match_at_shift(x, p, n + 2, fr);
        }
        lemma_find_exact(x, p, n + 2 + fr);
        assert(n + 2 + fr == lines_block(ls).len() - 2);
    }
}

proof fn lemma_clean_concat(a: Seq<u8>, b: Seq<u8>)
    requires
        line_clean(a),
        line_clean(b),
    ensures
        line_clean(a + b),
{
    let s = a + b;
    assert forall|i: int| 0 <= i < s.len() implies s[i] != 13u8 && s[i] != 10u8 by {
        if i < a.len() {
            assert(s[i] == a[i]);
            if a[i] == 13u8 {
                assert(a.contains(13u8));
            }
            if a[i] == 10u8 {
                assert(a.contains(10u8));
            }
        } else {
            assert(s[i] == b[i - a.len()]);
            if b[i - a.len()] == 13u8 {
                assert(b.contains(13u8));
            }
            if b[i - a.len()] == 10u8 {
                assert(b.contains(10u8));
            }
        }
    }
    if s.contains(13u8) {
        let i = choose|i: int| 0 <= i < s.len() && s[i] == 13u8;
        assert(false);
    }
    if s.contains(10u8) {
        let i = choose|i: int| 0 <= i < s.len() && s[i] == 10u8;
        assert(false);
    }
}

proof fn lemma_no_byte(s: Seq<u8>, b: u8)
    requires
        forall|i: int| 0 <= i < s.len() ==> s[i] != b,
    ensures
        !s.contains(b),
{
    if s.contains(b) {
        let i = choose|i: int| 0 <= i < s.len() && s[i] == b;
        assert(false);
    }
}

proof fn lemma_digit_string_facts(s: Seq<u8>)
    requires
        util::all_digits(s),
    ensures
        line_clean(s),
        !s.contains(' ' as u8),
        !s.contains(':' as u8),
{
    assert forall|i: int| 0 <= i < s.len() implies s[i] != 13u8 by {
        assert(util::is_digit(s[i]));
    }
    assert forall|i: int| 0 <= i < s.len() implies s[i] != 10u8 by {
        assert(util::is_digit(s[i]));
    }
    assert forall|i: int| 0 <= i < s.len() implies s[i] != ' ' as u8 by {
        assert(util::is_digit(s[i]));
    }
    assert forall|i: int| 0 <= i < s.len() implies s[i] != ':' as u8 by {
        assert(util::is_digit(s[i]));
    }
    lemma_no_byte(s, 13u8);
    lemma_no_byte(s, 10u8);
    lemma_no_byte(s, ' ' as u8);
    lemma_no_byte(s, ':' as u8);
}

proof fn lemma_split_clean_prefix(l: Seq<u8>, rest: Seq<u8>, sep: u8)
    requires
        !l.contains(sep),
    ensures
        util::spec_split(l + rest, sep) == seq![l + util::spec_split(rest, sep)[0]]
            + util::spec_split(rest, sep).skip(1),
    decreases l.len(),
{
    util::lemma_split_len(rest, sep);
    if l.len() == 0 {
        assert(l + rest =~= rest);
        assert(l + util::spec_split(rest, sep)[0] =~= util::spec_split(rest, sep)[0]);
        assert(seq![util::spec_split(rest, sep)[0]] + util::spec_split(rest, sep).skip(1)
            =~~= util::spec_split(rest, sep));
    } else {
        let s = l + rest;
        assert(s[0] == l[0]);
        assert(l[0] != sep) by {
            if l[0] == sep {
                assert(l.contains(sep));
            }
        }
        assert(!l.skip(1).contains(sep)) by {
            if l.skip(1).contains(sep) {
                let i = choose|i: int| 0 <= i < l.skip(1).len() && l.skip(1)[i] == sep;
                assert(l[i + 1] == sep);
                assert(l.contains(sep));
            }
        }
        lemma_split_clean_prefix(l.skip(1), rest, sep);
        assert(s.skip(1) =~= l.skip(1) + rest);
        let r = util::spec_split(s.skip(1), sep);
        assert(util::spec_split(s, sep) == seq![seq![s[0]] + r[0]] + r.skip(1));
        assert(r == seq![l.skip(1) + util::spec_split(rest, sep)[0]] + util::spec_split(
            rest,
            sep,
        ).skip(1));
        assert(r[0] == l.skip(1) + util::spec_split(rest, sep)[0]);
        assert(seq![s[0]] + r[0] =~= l + util::spec_split(rest, sep)[0]);
        assert(r.skip(1) =~~= util::spec_split(rest, sep).skip(1));
    }
}

proof fn lemma_lines_of_joined(ls: Seq<Seq<u8>>)
    requires
        ls.len() >= 1,
        forall|i: int| 0 <= i < ls.len() ==> line_clean(#[trigger] ls[i]),
    ensures
        spec_lines(joined_lines(ls)) == ls,
    decreases ls.len(),
{
    let nl = '\n' as u8;
    if ls.len() == 1 {
        let l = ls[0];
        assert(!l.contains(nl));
        lemma_split_clean_prefix(l, Seq::empty(), nl);
        assert(l + Seq::<u8>::empty() =~= l);
        assert(util::spec_split(Seq::empty(), nl) == seq![Seq::<u8>::empty()]);
        assert(l + util::spec_split(Seq::<u8>::empty(), nl)[0] =~= l);
        assert(util::spec_split(l, nl) =~~= seq![l]);
        assert(l.len() == 0 || l.last() != 13u8) by {
            if l.len() > 0 && l.last() == 13u8 {
                assert(l.contains(13u8));
            }
        }
        assert(spec_lines(l) =~~= seq![l]);
        assert(joined_lines(ls) == l);
    } else {
        let l = ls[0];
        let rest = ls.skip(1);
        lemma_lines_of_joined(rest);
        let jr = joined_lines(rest);
        assert(joined_lines(ls) == l + tokens::spec_crlf() + jr);
        let lcr = l + seq![13u8];
        assert(!lcr.contains(nl)) by {
            if lcr.contains(nl) {
                let i = choose|i: int| 0 <= i < lcr.len() && lcr[i] == nl;
                if i < l.len() {
                    assert(l.contains(nl));
                }
            }
        }
        let after = seq![nl] + jr;
        lemma_split_clean_prefix(lcr, after, nl);
        assert(lcr + after =~= joined_lines(ls));
        assert(after[0] == nl);
        assert(after.skip(1) =~= jr);
        assert(util::spec_split(after, nl) == seq![Seq::<u8>::empty()] + util::spec_split(jr, nl));
        util::lemma_split_len(jr, nl);
        assert(util::spec_split(after, nl)[0] == Seq::<u8>::empty());
        assert(lcr + util::spec_split(after, nl)[0] =~= lcr);
        assert(util::spec_split(after, nl).skip(1) =~~= util::spec_split(jr, nl));
        assert(util::spec_split(joined_lines(ls), nl) =~~= seq![lcr] + util::spec_split(jr, nl));
        // Mapping the carriage-return strip over the split gives the lines.
        assert(lcr.len() > 0 && lcr.last() == 13u8);
        assert(lcr.drop_last() =~= l);
        assert(spec_lines(joined_lines(ls)) =~~= seq![l] + spec_lines(jr));
        assert(seq![l] + rest =~~= ls);
    }
}

/// The response's header block is the block of its `Key: Value` lines.
proof fn lemma_header_block_is_lines(hs: Seq<(Seq<u8>, Seq<u8>)>)
    ensures
        crate::http::response::spec_header_block(hs) == lines_block(
            hs.map_values(|h: (Seq<u8>, Seq<u8>)| h.0 + tokens::spec_colon_sp() + h.1),
        ),
    decreases hs.len(),
{
    let f = |h: (Seq<u8>, Seq<u8>)| h.0 + tokens::spec_colon_sp() + h.1;
    if hs.len() == 0 {
        assert(hs.map_values(f).len() == 0);
        assert(lines_block(hs.map_values(f)) =~= Seq::<u8>::empty());
    } else {
        lemma_header_block_is_lines(hs.skip(1));
        assert(hs.map_values(f)[0] == f(hs[0]));
        assert(hs.map_values(f).skip(1) =~~= hs.skip(1).map_values(f));
        assert(crate::http::response::spec_header_block(hs) =~= (hs[0].0 + tokens::spec_colon_sp()
            + hs[0].1) + tokens::spec_crlf() + crate::http::response::spec_header_block(
            hs.skip(1),
        ));
        assert(lines_block(hs.map_values(f)) =~= f(hs[0]) + tokens::spec_crlf() + lines_block(
            hs.map_values(f).skip(1),
        ));
    }
}

/// A header name that survives the round trip: non-empty, free of
/// CR, LF and colons, and not padded with whitespace.
pub open spec fn wf_header_name(k: Seq<u8>) -> bool {
    &&& k.len() > 0
    &&& line_clean(k)
    &&& !k.contains(':' as u8)
    &&& !util::is_ws(k[0])
    &&& !util::is_ws(k.last())
}

/// A header value that survives the round trip: free of CR and LF,
/// not padded with whitespace.
pub open spec fn wf_header_value(v: Seq<u8>) -> bool {
    &&& line_clean(v)
    &&& (v.len() == 0 || (!util::is_ws(v[0]) && !util::is_ws(v.last())))
}

/// A response whose wire form can be read back exactly: clean status
/// text, well-formed headers with pairwise distinct names, no
/// `Content-Length` of its own, and a body whose length the machine
/// can count.
pub open spec fn resp_wf(r: HttpResponse) -> bool {
    let hs = r.headers.deep_view();
    &&& line_clean(r.status_text@)
    &&& (forall|i: int|
        0 <= i < hs.len() ==> wf_header_name((#[trigger] hs[i]).0) && wf_header_value(hs[i].1))
    &&& (forall|i: int, j: int|
        0 <= i < j < hs.len() ==> (#[trigger] hs[i]).0 != (#[trigger] hs[j]).0)
    &&& !spec_has_header_ci(hs, tokens::spec_content_length())
    &&& r.body@.len() <= usize::MAX
}

proof fn lemma_parse_header_line(k: Seq<u8>, v: Seq<u8>)
    requires
        wf_header_name(k),
        wf_header_value(v),
    ensures
        ({
            let line = k + tokens::spec_colon_sp() + v;
            &&& spec_find(line, seq![':' as u8], 0) == Some(k.len() as int)
            &&& util::spec_trim(line.take(k.len() as int)) == k
            &&& util::spec_trim(line.skip(k.len() as int + 1)) == v
        }),
{
    let line = k + tokens::spec_colon_sp() + v;
    let n = k.len() as int;
    let colon_pat = seq![':' as u8];
    assert forall|j: int| 0 <= j < n implies !util::match_at(line, colon_pat, j) by {
        assert(line[j] == k[j]);
        assert(k[j] != ':' as u8) by {
            if k[j] == ':' as u8 {
                assert(k.contains(':' as u8));
            }
        }
        if util::match_at(line, colon_pat, j) {
            assert(line.subrange(j, j + 1)[0] == line[j]);
        }
    }
    assert(util::match_at(line, colon_pat, n)) by {
        assert(line[n] == ':' as u8);
        assert(line.subrange(n, n + 1) =~= colon_pat);
    }
    lemma_find_exact(line, colon_pat, n);
    assert(line.take(n) =~= k);
    assert(util::spec_trim(k) == k) by {
        assert(util::spec_trim_front(k) == k);
        assert(util::spec_trim_back(k) == k);
    }
    let after = line.skip(n + 1);
    assert(after =~= seq![' ' as u8] + v);
    assert(util::spec_trim_front(after) == util::spec_trim_front(v)) by {
        assert(after.len() > 0 && util::is_ws(after[0]));
        assert(after.skip(1) =~= v);
    }
    if v.len() == 0 {
        assert(util::spec_trim_front(v) == v);
        assert(util::spec_trim_back(v) == v);
    } else {
        assert(util::spec_trim_front(v) == v);
        assert(util::spec_trim_back(v) == v);
    }
    assert(util::spec_trim(after) == v);
}

/// Folding well-formed, distinct header lines into an accumulator
/// whose names they avoid appends them in order.
proof fn lemma_accumulate_append(acc: Seq<(Seq<u8>, Seq<u8>)>, hs: Seq<(Seq<u8>, Seq<u8>)>)
    requires
        forall|i: int|
            0 <= i < hs.len() ==> wf_header_name((#[trigger] hs[i]).0) && wf_header_value(
                hs[i].1,
            ),
        forall|i: int, j: int|
            0 <= i < j < hs.len() ==> (#[trigger] hs[i]).0 != (#[trigger] hs[j]).0,
        forall|a: int, i: int|
            0 <= a < acc.len() && 0 <= i < hs.len() ==> (#[trigger] acc[a]).0 != (
            #[trigger] hs[i]).0,
    ensures
        crate::http::request::spec_accumulate_headers(
            acc,
            hs.map_values(|h: (Seq<u8>, Seq<u8>)| h.0 + tokens::spec_colon_sp() + h.1),
        ) == acc + hs,
    decreases hs.len(),
{
    let f = |h: (Seq<u8>, Seq<u8>)| h.0 + tokens::spec_colon_sp() + h.1;
    let lines = hs.map_values(f);
    if hs.len() == 0 {
        assert(lines.len() == 0);
        assert(acc + hs =~~= acc);
    } else {
        let h0 = hs[0];
        assert(wf_header_name(h0.0) && wf_header_value(h0.1));
        lemma_parse_header_line(h0.0, h0.1);
        assert(lines[0] == f(h0));
        let line = lines[0];
        assert(spec_find(line, seq![':' as u8], 0) == Some(h0.0.len() as int));
        crate::http::response::lemma_set_header_missing(acc, h0.0, h0.1);
        let acc1 = acc.push(h0);
        assert(lines.skip(1) =~~= hs.skip(1).map_values(f));
        assert(forall|a: int, i: int|
            0 <= a < acc1.len() && 0 <= i < hs.skip(1).len() ==> (#[trigger] acc1[a]).0 != (
            #[trigger] hs.skip(1)[i]).0) by {
            assert(forall|i: int| 0 <= i < hs.skip(1).len() ==> hs.skip(1)[i] == hs[i + 1]);
        }
        lemma_accumulate_append(acc1, hs.skip(1));
        assert(acc1 + hs.skip(1) =~~= acc + hs);
    }
}

/// What a response wire form denotes: status code and text from the
/// status line, the headers, and a `Content-Length`-framed body.
pub open spec fn spec_parse_response(buf: Seq<u8>) -> Option<
    (u16, Seq<u8>, Seq<(Seq<u8>, Seq<u8>)>, Seq<u8>),
> {
    match spec_find_double_crlf(buf) {
        None => None,
        Some(he) => {
            let lines = spec_lines(buf.take(he));
            let sl = lines[0];
            if !tokens::spec_http11_sp().is_prefix_of(sl) {
                None
            } else {
                let rest = sl.skip(tokens::spec_http11_sp().len() as int);
                let pair = match spec_find(rest, seq![' ' as u8], 0) {
                    Some(sp) => (rest.take(sp), rest.skip(sp + 1)),
                    None => (rest, Seq::<u8>::empty()),
                };
                if !(pair.0.len() > 0 && util::all_digits(pair.0) && util::dec_value(pair.0)
                    <= u16::MAX) {
                    None
                } else {
                    let headers = spec_parse_headers(lines.skip(1));
                    match spec_header_lookup(headers, tokens::spec_content_length()) {
                        None => None,
                        Some(lv) => {
                            if !(lv.len() > 0 && util::all_digits(lv) && util::dec_value(lv)
                                <= usize::MAX) {
                                None
                            } else if buf.len() - (he + 4) < util::dec_value(lv) {
                                None
                            } else {
                                Some(
                                    (
                                        util::dec_value(pair.0) as u16,
                                        pair.1,
                                        headers,
                                        buf.subrange(
                                            he + 4,
                                            he + 4 + util::dec_value(lv),
                                        ),
                                    ),
                                )
                            }
                        },
                    }
                }
            }
        },
    }
}

proof fn lemma_token_cleanliness()
    ensures
        line_clean(tokens::spec_http11_sp()),
        line_clean(tokens::spec_colon_sp()),
        line_clean(tokens::spec_content_length()),
        !tokens::spec_content_length().contains(':' as u8),
{
    let a = tokens::spec_http11_sp();
    assert forall|i: int| 0 <= i < a.len() implies a[i] != 13u8 && a[i] != 10u8 by {}
    lemma_no_byte(a, 13u8);
    lemma_no_byte(a, 10u8);
    let b = tokens::spec_colon_sp();
    assert forall|i: int| 0 <= i < b.len() implies b[i] != 13u8 && b[i] != 10u8 by {}
    lemma_no_byte(b, 13u8);
    lemma_no_byte(b, 10u8);
    let c = tokens::spec_content_length();
    assert forall|i: int| 0 <= i < c.len() implies c[i] != 13u8 && c[i] != 10u8 && c[i]
        != ':' as u8 by {}
    lemma_no_byte(c, 13u8);
    lemma_no_byte(c, 10u8);
    lemma_no_byte(c, ':' as u8);
}

/// The round trip: a well-formed response, serialized and parsed
/// back, yields the same status code, status text and body, and its
/// headers followed by the synthesized `Content-Length`.
#[verifier::rlimit(100)]
pub proof fn lemma_response_round_trip(r: HttpResponse)
    requires
        resp_wf(r),
    ensures
        spec_parse_response(spec_serialize(r)) == Some(
            (
                r.status_code,
                r.status_text@,
                r.headers.deep_view().push(
                    (tokens::spec_content_length(), util::spec_dec_digits(r.body@.len())),
                ),
                r.body@,
            ),
        ),
{
    let hs = r.headers.deep_view();
    let s = spec_serialize(r);
    let code_digits = util::spec_dec_digits(r.status_code as nat);
    let len_digits = util::spec_dec_digits(r.body@.len());
    util::lemma_dec_digits_value(r.status_code as nat);
    util::lemma_dec_digits_value(r.body@.len());
    lemma_digit_string_facts(code_digits);
    lemma_digit_string_facts(len_digits);
    lemma_token_cleanliness();

    let f = |h: (Seq<u8>, Seq<u8>)| h.0 + tokens::spec_colon_sp() + h.1;
    let sl = tokens::spec_http11_sp() + code_digits + seq![' ' as u8] + r.status_text@;
    let clpair = (tokens::spec_content_length(), len_digits);
    let cl_line = f(clpair);
    let all_pairs = hs.push(clpair);
    let all = seq![sl] + all_pairs.map_values(f);

    // The wire form is the block of those lines, a blank line, and the
    // body.
    lemma_header_block_is_lines(hs);
    assert(all_pairs.map_values(f) =~~= hs.map_values(f) + seq![cl_line]) by {
        assert(forall|i: int|
            0 <= i < hs.len() ==> all_pairs.map_values(f)[i] == f(#[trigger] all_pairs[i]));
        assert(all_pairs[hs.len() as int] == clpair);
    }
    lemma_lines_block_add(seq![sl], hs.map_values(f));
    lemma_lines_block_add(seq![sl] + hs.map_values(f), seq![cl_line]);
    assert(all =~~= (seq![sl] + hs.map_values(f)) + seq![cl_line]);
    assert(lines_block(seq![sl]) =~= sl + tokens::spec_crlf()) by {
        assert(seq![sl].skip(1) =~~= Seq::<Seq<u8>>::empty());
        assert(lines_block(seq![sl].skip(1)) =~= Seq::<u8>::empty());
    }
    assert(lines_block(seq![cl_line]) =~= cl_line + tokens::spec_crlf()) by {
        assert(seq![cl_line].skip(1) =~~= Seq::<Seq<u8>>::empty());
        assert(lines_block(seq![cl_line].skip(1)) =~= Seq::<u8>::empty());
    }
    assert(s =~= lines_block(all) + tokens::spec_crlf() + r.body@);

    // Every line is clean and non-empty.
    assert(line_clean(sl)) by {
        lemma_clean_concat(tokens::spec_http11_sp(), code_digits);
        assert(line_clean(seq![' ' as u8])) by {
            lemma_no_byte(seq![' ' as u8], 13u8);
            lemma_no_byte(seq![' ' as u8], 10u8);
        }
        lemma_clean_concat(tokens::spec_http11_sp() + code_digits, seq![' ' as u8]);
        lemma_clean_concat(
            tokens::spec_http11_sp() + code_digits + seq![' ' as u8],
            r.status_text@,
        );
    }
    assert(wf_header_name(clpair.0));
    assert(wf_header_value(clpair.1)) by {
        if len_digits.len() > 0 {
            assert(util::is_digit(len_digits[0]));
            assert(util::is_digit(len_digits.last()));
        }
    }
    assert forall|i: int| 0 <= i < all.len() implies line_clean(#[trigger] all[i]) && all[i].len()
        > 0 by {
        if i == 0 {
            assert(all[i] == sl);
        } else {
            assert(all[i] == f(all_pairs[i - 1]));
            let h = all_pairs[i - 1];
            assert(wf_header_name(h.0) && wf_header_value(h.1));
            lemma_clean_concat(h.0, tokens::spec_colon_sp());
            lemma_clean_concat(h.0 + tokens::spec_colon_sp(), h.1);
        }
    }

    // The header terminator sits exactly before the blank line.
    lemma_first_terminator(all, r.body@);
    let he = lines_block(all).len() - 2;
    assert(spec_find_double_crlf(s) == Some(he));

    // The header section splits back into the lines.
    lemma_block_is_joined_plus_crlf(all);
    assert(s.take(he) =~= joined_lines(all));
    lemma_lines_of_joined(all);
    let lines = spec_lines(s.take(he));
    assert(lines == all);
    assert(lines[0] == sl);

    // The status line parses back to the code and text.
    assert(tokens::spec_http11_sp().is_prefix_of(sl)) by {
        assert(sl.subrange(0, tokens::spec_http11_sp().len() as int)
            =~= tokens::spec_http11_sp());
    }
    let rest = sl.skip(tokens::spec_http11_sp().len() as int);
    assert(rest =~= code_digits + seq![' ' as u8] + r.status_text@);
    let sp_pat = seq![' ' as u8];
    let nd = code_digits.len() as int;
    assert forall|j: int| 0 <= j < nd implies !util::match_at(rest, sp_pat, j) by {
        assert(rest[j] == code_digits[j]);
        assert(code_digits[j] != ' ' as u8) by {
            if code_digits[j] == ' ' as u8 {
                assert(code_digits.contains(' ' as u8));
            }
        }
        if util::match_at(rest, sp_pat, j) {
            assert(rest.subrange(j, j + 1)[0] == rest[j]);
        }
    }
    assert(util::match_at(rest, sp_pat, nd)) by {
        assert(rest[nd] == ' ' as u8);
        assert(rest.subrange(nd, nd + 1) =~= sp_pat);
    }
    lemma_find_exact(rest, sp_pat, nd);
    assert(rest.take(nd) =~= code_digits);
    assert(rest.skip(nd + 1) =~= r.status_text@);
    assert(util::dec_value(code_digits) == r.status_code as nat);

    // The header lines parse back to the headers plus the synthesized
    // length.
    assert(lines.skip(1) =~~= all_pairs.map_values(f));
    assert forall|i: int, j: int| 0 <= i < j < all_pairs.len() implies (
    #[trigger] all_pairs[i]).0 != (#[trigger] all_pairs[j]).0 by {
        if j == hs.len() as int {
            if all_pairs[i].0 == clpair.0 {
                assert(spec_has_header_ci(hs, tokens::spec_content_length()));
            }
        }
    }
    assert forall|i: int| 0 <= i < all_pairs.len() implies wf_header_name(
        (#[trigger] all_pairs[i]).0,
    ) && wf_header_value(all_pairs[i].1) by {}
    lemma_accumulate_append(Seq::empty(), all_pairs);
    let headers = spec_parse_headers(lines.skip(1));
    assert(headers =~~= all_pairs) by {
        assert(Seq::<(Seq<u8>, Seq<u8>)>::empty() + all_pairs =~~= all_pairs);
    }

    // The synthesized length is looked up last-wins and frames the
    // body.
    assert(spec_header_lookup(headers, tokens::spec_content_length()) == Some(len_digits)) by {
        assert(headers.last() == clpair);
    }
    assert(s.len() - (he + 4) == r.body@.len());
    assert(s.subrange(he + 4, he + 4 + r.body@.len() as int) =~= r.body@);
    assert(util::dec_value(len_digits) == r.body@.len());
}

} // verus!
