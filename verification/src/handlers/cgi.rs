//! The CGI gateway's verifiable parts: interpreter selection, the
//! CGI/1.1 environment, and the parsing of a script's output into a
//! response.  Spawning the child and draining its pipes happens
//! outside the library.

use vstd::prelude::*;

use crate::http::request::{spec_find, spec_lines, find_from, header_lines, HttpRequest};
use crate::http::response::{
    spec_has_header_ci, spec_header_lookup, spec_set_header, HttpResponse,
};
use crate::tokens;
use crate::util;

verus! {

/// The interpreter a script's extension selects.
#[derive(Debug, Clone, Copy, PartialEq, Eq, Structural)]
pub enum CgiInterpreter {
    /// `.py`: a Python interpreter.
    Python,
    /// `.sh`: the shell.
    Sh,
    /// Anything else is refused.
    Unsupported,
}

/// The interpreter for a script path, by extension.
pub open spec fn spec_interpreter_for(path: Seq<u8>) -> CgiInterpreter {
    if tokens::spec_dot_py().is_suffix_of(path) {
        CgiInterpreter::Python
    } else if tokens::spec_dot_sh().is_suffix_of(path) {
        CgiInterpreter::Sh
    } else {
        CgiInterpreter::Unsupported
    }
}

/// Selects the interpreter for a script path.
pub fn interpreter_for(path: &[u8]) -> (r: CgiInterpreter)
    ensures
        r == spec_interpreter_for(path@),
{
    let py = tokens::dot_py();
    let sh = tokens::dot_sh();
    if util::ends_with(path, py.as_slice()) {
        CgiInterpreter::Python
    } else if util::ends_with(path, sh.as_slice()) {
        CgiInterpreter::Sh
    } else {
        CgiInterpreter::Unsupported
    }
}

/// A header byte in an environment name: upper-cased, with `-` turned
/// into `_`.
pub open spec fn spec_env_byte(b: u8) -> u8 {
    if 'a' as u8 <= b && b <= 'z' as u8 {
        (b - 32) as u8
    } else if b == '-' as u8 {
        '_' as u8
    } else {
        b
    }
}

/// The environment name of a request header: `HTTP_` plus the mapped
/// name.
pub open spec fn spec_env_key(name: Seq<u8>) -> Seq<u8> {
    tokens::spec_http_env_prefix() + name.map_values(|b: u8| spec_env_byte(b))
}

/// The CGI/1.1 environment for a request: the standard variables,
/// `CONTENT_TYPE` when the request carries one, and `HTTP_<NAME>` for
/// every request header, in header order.
pub open spec fn spec_cgi_env(
    script_path: Seq<u8>,
    path_info: Seq<u8>,
    req: crate::http::request::ReqModel,
) -> Seq<(Seq<u8>, Seq<u8>)> {
    seq![
        (tokens::spec_request_method(), req.method),
        (tokens::spec_script_name(), script_path),
        (tokens::spec_path_info(), path_info),
        (tokens::spec_content_length_env(), util::spec_dec_digits(req.body.len())),
        (tokens::spec_server_protocol(), tokens::spec_http11()),
        (tokens::spec_gateway_interface(), tokens::spec_cgi_slash_11()),
        (tokens::spec_query_string(), req.query),
    ] + (match spec_header_lookup(req.headers, tokens::spec_content_type()) {
        Some(ct) => seq![(tokens::spec_content_type_env(), ct)],
        None => Seq::<(Seq<u8>, Seq<u8>)>::empty(),
    }) + req.headers.map_values(|h: (Seq<u8>, Seq<u8>)| (spec_env_key(h.0), h.1))
}

/// Maps a header name to its CGI environment name.
fn env_key(name: &[u8]) -> (r: Vec<u8>)
    ensures
        r@ == spec_env_key(name@),
{
    let mut out = tokens::http_env_prefix();
    let mut i: usize = 0;
    let ghost pre = out@;
    while i < name.len()
        invariant
            0 <= i <= name@.len(),
            pre == tokens::spec_http_env_prefix(),
            out@.len() == pre.len() + i,
            out@.subrange(0, pre.len() as int) == pre,
            forall|j: int|
                0 <= j < i ==> out@[pre.len() + j] == spec_env_byte(#[trigger] name@[j]),
        decreases name@.len() - i,
    {
        let b = name[i];
        if b >= 'a' as u8 && b <= 'z' as u8 {
            out.push(b - 32);
        } else if b == '-' as u8 {
            out.push('_' as u8);
        } else {
            out.push(b);
        }
        i = i + 1;
    }
    assert(out@ =~= spec_env_key(name@));
    out
}

/// Builds the CGI/1.1 environment for a request.
pub fn cgi_env(script_path: &[u8], path_info: &[u8], request: &HttpRequest) -> (r: Vec<
    (Vec<u8>, Vec<u8>),
>)
    ensures
        r.deep_view() == spec_cgi_env(script_path@, path_info@, request@),
{
    let mut env: Vec<(Vec<u8>, Vec<u8>)> = Vec::new();
    env.push((tokens::request_method(), vstd::slice::slice_to_vec(request.method.as_slice())));
    env.push((tokens::script_name(), vstd::slice::slice_to_vec(script_path)));
    env.push((tokens::path_info(), vstd::slice::slice_to_vec(path_info)));
    env.push((tokens::content_length_env(), util::usize_to_dec(request.body.len())));
    env.push((tokens::server_protocol(), tokens::http11()));
    env.push((tokens::gateway_interface(), tokens::cgi_slash_11()));
    env.push((tokens::query_string(), vstd::slice::slice_to_vec(request.query.as_slice())));
    let ct_name = tokens::content_type();
    match crate::http::request::header_lookup(&request.headers, ct_name.as_slice()) {
        Some(ct) => {
            env.push((tokens::content_type_env(), ct));
        },
        None => {},
    }
    let ghost fixed = env.deep_view();
    let ghost hs = request.headers.deep_view();
    proof {
        assert(fixed + hs.map_values(|h: (Seq<u8>, Seq<u8>)| (spec_env_key(h.0), h.1))
            =~~= spec_cgi_env(script_path@, path_info@, request@));
    }
    let mut i: usize = 0;
    while i < request.headers.len()
        invariant
            0 <= i <= request.headers@.len(),
            hs == request.headers.deep_view(),
            hs.len() == request.headers@.len(),
            fixed + hs.map_values(|h: (Seq<u8>, Seq<u8>)| (spec_env_key(h.0), h.1))
                == spec_cgi_env(script_path@, path_info@, request@),
            env.deep_view().len() == fixed.len() + i,
            env.deep_view().subrange(0, fixed.len() as int) == fixed,
            forall|j: int|
                0 <= j < i ==> env.deep_view()[fixed.len() + j] == (
                spec_env_key((#[trigger] hs[j]).0),
                hs[j].1,
            ),
        decreases request.headers.len() - i,
    {
        proof {
            assert(hs[i as int].0 == request.headers@[i as int].0@);
            assert(hs[i as int].1 == request.headers@[i as int].1@);
        }
        let ghost before = env.deep_view();
        let key = env_key(request.headers[i].0.as_slice());
        let value = vstd::slice::slice_to_vec(request.headers[i].1.as_slice());
        env.push((key, value));
        proof {
            assert(env.deep_view() =~~= before.push((spec_env_key(hs[i as int].0), hs[i as int].1)));
            assert(env.deep_view().subrange(0, fixed.len() as int) =~~= fixed);
        }
        i = i + 1;
    }
    proof {
        assert(env.deep_view() =~~= spec_cgi_env(script_path@, path_info@, request@));
    }
    env
}

/// Splitting CGI output into its header block and body: at the first
/// `\r\n\r\n`, at the first `\n\n` as fallback, or everything is body.
pub open spec fn spec_cgi_split(raw: Seq<u8>) -> (Seq<u8>, Seq<u8>) {
    match spec_find(raw, tokens::spec_crlf_crlf(), 0) {
        Some(p) => (raw.take(p), raw.skip(p + 4)),
        None => match spec_find(raw, tokens::spec_lf_lf(), 0) {
            Some(p) => (raw.take(p), raw.skip(p + 2)),
            None => (Seq::empty(), raw),
        },
    }
}

/// Splits raw CGI output into header block and body.
pub fn extract_cgi_headers_body(raw: &[u8]) -> (r: (Vec<u8>, Vec<u8>))
    ensures
        r.0@ == spec_cgi_split(raw@).0,
        r.1@ == spec_cgi_split(raw@).1,
{
    let rlen = raw.len();
    let crlfcrlf = tokens::crlf_crlf();
    match find_from(raw, crlfcrlf.as_slice(), 0) {
        Some(p) => (util::subvec(raw, 0, p), util::subvec(raw, p + 4, rlen)),
        None => {
            let lflf = tokens::lf_lf();
            match find_from(raw, lflf.as_slice(), 0) {
                Some(p) => (util::subvec(raw, 0, p), util::subvec(raw, p + 2, rlen)),
                None => (Vec::new(), vstd::slice::slice_to_vec(raw)),
            }
        },
    }
}

/// Status and headers accumulated from a CGI header block.
#[verifier::ext_equal]
pub ghost struct CgiHeadModel {
    pub code: u16,
    pub text: Seq<u8>,
    pub headers: Seq<(Seq<u8>, Seq<u8>)>,
}

/// Applies the lines of a CGI header block in order: a `Status:
/// <code> <text>` line with a valid code sets the status, any other
/// `Key: Value` line sets a header; blank and colon-free lines are
/// skipped.
pub open spec fn spec_apply_cgi_lines(m: CgiHeadModel, lines: Seq<Seq<u8>>) -> CgiHeadModel
    decreases lines.len(),
{
    if lines.len() == 0 {
        m
    } else {
        let t = util::spec_trim(lines[0]);
        let next = if t.len() == 0 {
            m
        } else {
            match spec_find(t, seq![':' as u8], 0) {
                None => m,
                Some(c) => {
                    let key = util::spec_trim(t.take(c));
                    let val = util::spec_trim(t.skip(c + 1));
                    if util::spec_lower(key) == util::spec_lower(tokens::spec_status_word()) {
                        match spec_find(val, seq![' ' as u8], 0) {
                            Some(sp) => {
                                let cs = val.take(sp);
                                if cs.len() > 0 && util::all_digits(cs) && util::dec_value(cs)
                                    <= u16::MAX {
                                    CgiHeadModel {
                                        code: util::dec_value(cs) as u16,
                                        text: val.skip(sp + 1),
                                        headers: m.headers,
                                    }
                                } else {
                                    m
                                }
                            },
                            None => m,
                        }
                    } else {
                        CgiHeadModel { code: m.code, text: m.text, headers: spec_set_header(m.headers, key, val) }
                    }
                },
            }
        };
        spec_apply_cgi_lines(next, lines.skip(1))
    }
}

/// The response CGI output denotes: `500` carrying standard error
/// when the script wrote nothing, otherwise the parsed status and
/// headers with the remainder as body and a default content type.
pub fn parse_cgi_output(stdout: &[u8], stderr: &[u8]) -> (r: HttpResponse)
    ensures
        stdout@.len() == 0 ==> {
            &&& r.status_code == 500
            &&& r.status_text@ == tokens::spec_status_internal_error()
            &&& r.headers.deep_view() == Seq::<(Seq<u8>, Seq<u8>)>::empty()
            &&& (util::spec_trim(stderr@).len() == 0 ==> r.body@ == tokens::spec_cgi_no_output())
            &&& (util::spec_trim(stderr@).len() > 0 ==> r.body@ == tokens::spec_cgi_error_prefix()
                + stderr@)
        },
        stdout@.len() > 0 ==> {
            let m = spec_apply_cgi_lines(
                CgiHeadModel {
                    code: 200,
                    text: tokens::spec_status_ok(),
                    headers: Seq::empty(),
                },
                spec_lines(spec_cgi_split(stdout@).0),
            );
            &&& r.status_code == m.code
            &&& r.status_text@ == m.text
            &&& r.body@ == spec_cgi_split(stdout@).1
            &&& r.headers.deep_view() == (if spec_has_header_ci(
                m.headers,
                tokens::spec_content_type(),
            ) {
                m.headers
            } else {
                spec_set_header(
                    m.headers,
                    tokens::spec_content_type(),
                    tokens::spec_text_plain_utf8(),
                )
            })
        },
{
    if stdout.len() == 0 {
        let mut resp = HttpResponse::internal_error();
        let trimmed = util::trim(stderr);
        if trimmed.len() == 0 {
            let msg = tokens::cgi_no_output();
            resp.set_body(msg.as_slice());
        } else {
            let mut msg = tokens::cgi_error_prefix();
            msg.extend_from_slice(stderr);
            resp.set_body(msg.as_slice());
        }
        return resp;
    }
    let (head, body) = extract_cgi_headers_body(stdout);
    let lines = header_lines(head.as_slice());
    let ghost all = lines.deep_view();
    let mut resp = HttpResponse::ok();
    let ghost m0 = CgiHeadModel {
        code: 200,
        text: tokens::spec_status_ok(),
        headers: Seq::empty(),
    };
    let mut k: usize = 0;
    proof {
        assert(all.skip(0) =~~= all);
        assert(resp.headers.deep_view() =~~= m0.headers);
    }
    while k < lines.len()
        invariant
            0 <= k <= lines@.len(),
            all == lines.deep_view(),
            all.len() == lines@.len(),
            spec_apply_cgi_lines(m0, all) == spec_apply_cgi_lines(
                CgiHeadModel {
                    code: resp.status_code,
                    text: resp.status_text@,
                    headers: resp.headers.deep_view(),
                },
                all.skip(k as int),
            ),
            resp.body@.len() == 0,
        decreases lines.len() - k,
    {
        let ghost rest = all.skip(k as int);
        proof {
            assert(rest[0] == all[k as int]);
            assert(all[k as int] == lines@[k as int]@);
            assert(rest.skip(1) =~~= all.skip(k as int + 1));
        }
        let line = util::trim(lines[k].as_slice());
        if line.len() > 0 {
            let colon: Vec<u8> = vec![':' as u8];
            assert(colon@ =~= seq![':' as u8]);
            match find_from(line.as_slice(), colon.as_slice(), 0) {
                Some(c) => {
                    let llen = line.len();
                    let key_raw = vstd::slice::slice_subrange(line.as_slice(), 0, c);
                    let val_raw = vstd::slice::slice_subrange(line.as_slice(), c + 1, llen);
                    proof {
                        assert(key_raw@ =~= util::spec_trim(rest[0]).take(c as int));
                        assert(val_raw@ =~= util::spec_trim(rest[0]).skip(c + 1));
                    }
                    let key = util::trim(key_raw);
                    let val = util::trim(val_raw);
                    let status_word = tokens::status_word();
                    if util::eq_ignore_case(key.as_slice(), status_word.as_slice()) {
                        let space: Vec<u8> = vec![' ' as u8];
                        assert(space@ =~= seq![' ' as u8]);
                        match find_from(val.as_slice(), space.as_slice(), 0) {
                            Some(sp) => {
                                let vlen = val.len();
                                let cs = vstd::slice::slice_subrange(val.as_slice(), 0, sp);
                                let tx = vstd::slice::slice_subrange(val.as_slice(), sp + 1, vlen);
                                proof {
                                    assert(cs@ =~= val@.take(sp as int));
                                    assert(tx@ =~= val@.skip(sp + 1));
                                }
                                match util::parse_dec_usize(cs) {
                                    Some(code) => {
                                        if code <= 65535 {
                                            resp.status_code = code as u16;
                                            resp.status_text = vstd::slice::slice_to_vec(tx);
                                        }
                                    },
                                    None => {},
                                }
                            },
                            None => {},
                        }
                    } else {
                        resp.set_header(key.as_slice(), val.as_slice());
                    }
                },
                None => {},
            }
        }
        k = k + 1;
    }
    proof {
        assert(all.skip(k as int) =~~= Seq::<Seq<u8>>::empty());
    }
    let ct_name = tokens::content_type();
    if !resp.has_header(ct_name.as_slice()) {
        let tp = tokens::text_plain_utf8();
        resp.set_header(ct_name.as_slice(), tp.as_slice());
    }
    resp.set_body_bytes(body);
    resp
}

/// `504 Gateway Timeout` for a script that outlived its deadline.
pub fn gateway_timeout_response() -> (r: HttpResponse)
    ensures
        r.status_code == 504,
        r.status_text@ == tokens::spec_status_gateway_timeout(),
        r.body@ == tokens::spec_cgi_timed_out(),
        r.headers.deep_view() == Seq::<(Seq<u8>, Seq<u8>)>::empty(),
{
    let text = tokens::status_gateway_timeout();
    let mut resp = HttpResponse::new(504, text.as_slice());
    let body = tokens::cgi_timed_out();
    resp.set_body(body.as_slice());
    resp
}

} // verus!
