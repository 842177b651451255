//! The upload handler: body-size policy, multipart parsing, and
//! filename sanitization.  What to write where is decided here; the
//! write itself happens outside the library.

use vstd::prelude::*;

use crate::http::request::{spec_find, find_from, header_lookup, HttpRequest};
use crate::http::response::{spec_header_lookup, HttpResponse};
use crate::tokens;
use crate::util;

verus! {

/// What the upload handler decides: refuse with a status, or store
/// these bytes under this (already sanitized) file name.
#[derive(Debug)]
pub enum UploadOutcome {
    Reject { code: u16, message: Vec<u8> },
    Save { filename: Vec<u8>, data: Vec<u8> },
}

/// The mathematical value of an upload decision.
#[verifier::ext_equal]
pub ghost enum UploadModel {
    Reject { code: u16, message: Seq<u8> },
    Save { filename: Seq<u8>, data: Seq<u8> },
}

impl View for UploadOutcome {
    type V = UploadModel;

    open spec fn view(&self) -> UploadModel {
        match self {
            UploadOutcome::Reject { code, message } => UploadModel::Reject {
                code: *code,
                message: message@,
            },
            UploadOutcome::Save { filename, data } => UploadModel::Save {
                filename: filename@,
                data: data@,
            },
        }
    }
}

/// A byte kept by filename sanitization: ASCII letters and digits,
/// dot, dash, underscore.
pub open spec fn is_filename_byte(b: u8) -> bool {
    ||| ('a' as u8 <= b && b <= 'z' as u8)
    ||| ('A' as u8 <= b && b <= 'Z' as u8)
    ||| ('0' as u8 <= b && b <= '9' as u8)
    ||| b == '.' as u8
    ||| b == '-' as u8
    ||| b == '_' as u8
}

/// A sanitized filename: only letters, digits, `.`, `-` and `_` kept.
pub open spec fn spec_sanitize_filename(name: Seq<u8>) -> Seq<u8> {
    name.filter(|b: u8| is_filename_byte(b))
}

/// Keeps only letters, digits, `.`, `-` and `_` of a filename.
pub fn sanitize_filename(name: &[u8]) -> (r: Vec<u8>)
    ensures
        r@ == spec_sanitize_filename(name@),
{
    let mut out: Vec<u8> = Vec::new();
    let mut i: usize = 0;
    proof {
        assert(name@.take(0) =~= Seq::<u8>::empty());
        assert(name@.take(0).filter(|b: u8| is_filename_byte(b)) =~= Seq::<u8>::empty()) by {
            reveal(Seq::filter);
        }
    }
    while i < name.len()
        invariant
            0 <= i <= name@.len(),
            out@ == name@.take(i as int).filter(|b: u8| is_filename_byte(b)),
        decreases name@.len() - i,
    {
        let b = name[i];
        let keep = (b >= 'a' as u8 && b <= 'z' as u8) || (b >= 'A' as u8 && b <= 'Z' as u8) || (b
            >= '0' as u8 && b <= '9' as u8) || b == '.' as u8 || b == '-' as u8 || b == '_' as u8;
        proof {
            assert(name@.take(i as int + 1).drop_last() =~= name@.take(i as int));
            assert(name@.take(i as int + 1).last() == name@[i as int]);
            reveal(Seq::filter);
        }
        if keep {
            out.push(b);
        }
        i = i + 1;
    }
    proof {
        assert(name@.take(i as int) =~= name@);
    }
    out
}

/// The sequence with leading and trailing double quotes removed.
pub open spec fn spec_trim_quotes_front(s: Seq<u8>) -> Seq<u8>
    decreases s.len(),
{
    if s.len() > 0 && s[0] == '"' as u8 {
        spec_trim_quotes_front(s.skip(1))
    } else {
        s
    }
}

/// The sequence with trailing double quotes removed.
pub open spec fn spec_trim_quotes_back(s: Seq<u8>) -> Seq<u8>
    decreases s.len(),
{
    if s.len() > 0 && s.last() == '"' as u8 {
        spec_trim_quotes_back(s.drop_last())
    } else {
        s
    }
}

/// The sequence with double quotes removed on both sides.
pub open spec fn spec_trim_quotes(s: Seq<u8>) -> Seq<u8> {
    spec_trim_quotes_back(spec_trim_quotes_front(s))
}

proof fn lemma_trim_quotes_front_skip(s: Seq<u8>, i: int)
    requires
        0 <= i <= s.len(),
        forall|k: int| 0 <= k < i ==> s[k] == '"' as u8,
        i == s.len() || s[i] != '"' as u8,
    ensures
        spec_trim_quotes_front(s) == s.skip(i),
    decreases i,
{
    if i == 0 {
        assert(s.skip(0) =~= s);
    } else {
        lemma_trim_quotes_front_skip(s.skip(1), i - 1);
        assert(s.skip(1).skip(i - 1) =~= s.skip(i));
    }
}

proof fn lemma_trim_quotes_back_take(s: Seq<u8>, b: int)
    requires
        0 <= b <= s.len(),
        forall|k: int| b <= k < s.len() ==> s[k] == '"' as u8,
        b == 0 || s[b - 1] != '"' as u8,
    ensures
        spec_trim_quotes_back(s) == s.take(b),
    decreases s.len(),
{
    if b == s.len() {
        assert(s.take(b) =~= s);
    } else {
        lemma_trim_quotes_back_take(s.drop_last(), b);
        assert(s.drop_last().take(b) =~= s.take(b));
    }
}

/// Copy of `s` with double quotes removed on both sides.
pub fn trim_quotes(s: &[u8]) -> (r: Vec<u8>)
    ensures
        r@ == spec_trim_quotes(s@),
{
    let mut a: usize = 0;
    while a < s.len() && s[a] == '"' as u8
        invariant
            0 <= a <= s@.len(),
            forall|k: int| 0 <= k < a ==> s@[k] == '"' as u8,
        decreases s@.len() - a,
    {
        a = a + 1;
    }
    proof {
        lemma_trim_quotes_front_skip(s@, a as int);
    }
    let mut b: usize = s.len();
    while b > a && s[b - 1] == '"' as u8
        invariant
            a <= b <= s@.len(),
            forall|k: int| b <= k < s@.len() ==> s@[k] == '"' as u8,
        decreases b,
    {
        b = b - 1;
    }
    proof {
        let f = s@.skip(a as int);
        assert(forall|k: int| b - a <= k < f.len() ==> f[k] == '"' as u8);
        lemma_trim_quotes_back_take(f, b - a);
        assert(f.take(b - a) =~= s@.subrange(a as int, b as int));
    }
    util::subvec(s, a, b)
}

/// The boundary parameter of a `multipart/form-data` content type:
/// from the first `;`-separated part that, trimmed, begins with
/// `boundary=`; its value is the text between the first and second
/// `=`, trimmed, with surrounding quotes removed.
pub open spec fn spec_boundary_from_parts(parts: Seq<Seq<u8>>) -> Option<Seq<u8>>
    decreases parts.len(),
{
    if parts.len() == 0 {
        None
    } else if tokens::spec_boundary_eq().is_prefix_of(util::spec_trim(parts[0])) {
        let eq_parts = util::spec_split(parts[0], '=' as u8);
        let raw = if eq_parts.len() >= 2 {
            eq_parts[1]
        } else {
            Seq::<u8>::empty()
        };
        Some(spec_trim_quotes(util::spec_trim(raw)))
    } else {
        spec_boundary_from_parts(parts.skip(1))
    }
}

/// The boundary of a multipart content type, when declared.
pub open spec fn spec_extract_boundary(ct: Seq<u8>) -> Option<Seq<u8>> {
    spec_boundary_from_parts(util::spec_split(ct, ';' as u8))
}

/// Extracts the `boundary=` parameter from a content type.
pub fn extract_boundary(ct: &[u8]) -> (r: Option<Vec<u8>>)
    ensures
        r is Some <==> spec_extract_boundary(ct@) is Some,
        r matches Some(v) ==> Some(v@) == spec_extract_boundary(ct@),
{
    let parts = util::split_byte(ct, ';' as u8);
    let ghost all = parts.deep_view();
    let mut k: usize = 0;
    proof {
        assert(all.skip(0) =~~= all);
    }
    while k < parts.len()
        invariant
            0 <= k <= parts@.len(),
            all == parts.deep_view(),
            all.len() == parts@.len(),
            all == util::spec_split(ct@, ';' as u8),
            spec_boundary_from_parts(all) == spec_boundary_from_parts(all.skip(k as int)),
        decreases parts.len() - k,
    {
        let ghost rest = all.skip(k as int);
        proof {
            assert(rest[0] == all[k as int]);
            assert(all[k as int] == parts@[k as int]@);
            assert(rest.skip(1) =~~= all.skip(k as int + 1));
        }
        let trimmed = util::trim(parts[k].as_slice());
        let beq = tokens::boundary_eq();
        if util::starts_with(trimmed.as_slice(), beq.as_slice()) {
            let eq_parts = util::split_byte(parts[k].as_slice(), '=' as u8);
            let raw: Vec<u8> = if eq_parts.len() >= 2 {
                assert(eq_parts.deep_view()[1] == eq_parts@[1]@);
                vstd::slice::slice_to_vec(eq_parts[1].as_slice())
            } else {
                Vec::new()
            };
            let t = util::trim(raw.as_slice());
            let value = trim_quotes(t.as_slice());
            proof {
                assert(spec_boundary_from_parts(rest) == Some(value@));
            }
            return Some(value);
        }
        k = k + 1;
    }
    proof {
        assert(all.skip(k as int) =~~= Seq::<Seq<u8>>::empty());
    }
    None
}

/// The multipart decision: boundary required, first part located by
/// the blank line, its filename taken from `filename="..."`, the file
/// data running to two bytes before the next boundary marker, the
/// size limit enforced.
pub open spec fn spec_handle_multipart(ct: Seq<u8>, body: Seq<u8>, max_size: usize) -> UploadModel {
    match spec_extract_boundary(ct) {
        None => UploadModel::Reject { code: 400, message: tokens::spec_status_bad_request() },
        Some(b) => {
            let delim = seq!['-' as u8, '-' as u8] + b;
            let pos = match spec_find(body, tokens::spec_crlf_crlf(), 0) {
                Some(i) => i + 4,
                None => 0,
            };
            let head = body.take(pos);
            let filename = match spec_find(head, tokens::spec_filename_eq_quote(), 0) {
                None => tokens::spec_upload_bin(),
                Some(f) => {
                    let after = head.skip(f + tokens::spec_filename_eq_quote().len() as int);
                    match spec_find(after, seq!['"' as u8], 0) {
                        Some(q) => after.take(q),
                        None => after,
                    }
                },
            };
            let data_end = match spec_find(body, delim, pos) {
                Some(g) => if g >= pos + 2 {
                    g - 2
                } else {
                    pos
                },
                None => body.len() as int,
            };
            let data = body.subrange(pos, data_end);
            if data.len() > max_size {
                UploadModel::Reject { code: 413, message: tokens::spec_status_payload_too_large() }
            } else {
                UploadModel::Save { filename: spec_sanitize_filename(filename), data }
            }
        },
    }
}

/// Parses the first part of a multipart body and decides what to
/// store.
pub fn handle_multipart(ct: &[u8], body: &[u8], max_size: usize) -> (r: UploadOutcome)
    ensures
        r@ == spec_handle_multipart(ct@, body@, max_size),
{
    let blen = body.len();
    let boundary = match extract_boundary(ct) {
        Some(b) => b,
        None => {
            return UploadOutcome::Reject { code: 400, message: tokens::status_bad_request() };
        },
    };
    let mut delim: Vec<u8> = vec!['-' as u8, '-' as u8];
    delim.extend_from_slice(boundary.as_slice());
    proof {
        assert(delim@ =~= seq!['-' as u8, '-' as u8] + boundary@);
    }
    let crlfcrlf = tokens::crlf_crlf();
    let pos = match find_from(body, crlfcrlf.as_slice(), 0) {
        Some(i) => i + 4,
        None => 0,
    };
    let head = vstd::slice::slice_subrange(body, 0, pos);
    proof {
        assert(head@ =~= body@.take(pos as int));
    }
    let fq = tokens::filename_eq_quote();
    let filename: Vec<u8> = match find_from(head, fq.as_slice(), 0) {
        None => tokens::upload_bin(),
        Some(f) => {
            let hlen = head.len();
            let after = vstd::slice::slice_subrange(head, f + fq.len(), hlen);
            proof {
                assert(after@ =~= head@.skip(f + tokens::spec_filename_eq_quote().len() as int));
            }
            let quote: Vec<u8> = vec!['"' as u8];
            assert(quote@ =~= seq!['"' as u8]);
            match find_from(after, quote.as_slice(), 0) {
                Some(q) => util::subvec(after, 0, q),
                None => vstd::slice::slice_to_vec(after),
            }
        },
    };
    let data_end: usize = match find_from(body, delim.as_slice(), pos) {
        Some(g) => if g >= pos + 2 {
            g - 2
        } else {
            pos
        },
        None => blen,
    };
    let data = util::subvec(body, pos, data_end);
    if data.len() > max_size {
        return UploadOutcome::Reject { code: 413, message: tokens::status_payload_too_large() };
    }
    UploadOutcome::Save { filename: sanitize_filename(filename.as_slice()), data }
}

/// The upload decision for a request: refuse an oversized body, parse
/// a multipart body, or store the raw body under the `X-Filename`
/// header's name — with `upload-<clock>.bin` as fallback.
pub fn upload_file(request: &HttpRequest, max_size: usize) -> (r: UploadOutcome)
    ensures
        request@.body.len() > max_size ==> r@ == (UploadModel::Reject {
            code: 413,
            message: tokens::spec_status_payload_too_large(),
        }),
        request@.body.len() <= max_size ==> {
            let ct = match spec_header_lookup(request@.headers, tokens::spec_content_type()) {
                Some(c) => c,
                None => Seq::<u8>::empty(),
            };
            if tokens::spec_multipart_form_data().is_prefix_of(util::spec_lower(ct)) {
                r@ == spec_handle_multipart(ct, request@.body, max_size)
            } else {
                match spec_header_lookup(request@.headers, tokens::spec_x_filename()) {
                    Some(f) => r@ == (UploadModel::Save {
                        filename: spec_sanitize_filename(f),
                        data: request@.body,
                    }),
                    None => exists|n: nat|
                        r@ == (UploadModel::Save {
                            filename: spec_sanitize_filename(
                                tokens::spec_upload_dash() + util::spec_dec_digits(n)
                                    + tokens::spec_dot_bin(),
                            ),
                            data: request@.body,
                        }),
                }
            }
        },
{
    if request.body.len() > max_size {
        return UploadOutcome::Reject { code: 413, message: tokens::status_payload_too_large() };
    }
    let ct_name = tokens::content_type();
    let ct: Vec<u8> = match header_lookup(&request.headers, ct_name.as_slice()) {
        Some(c) => c,
        None => Vec::new(),
    };
    let ct_lower = util::to_lower(ct.as_slice());
    let mp = tokens::multipart_form_data();
    if util::starts_with(ct_lower.as_slice(), mp.as_slice()) {
        return handle_multipart(ct.as_slice(), request.body.as_slice(), max_size);
    }
    let xf_name = tokens::x_filename();
    let filename: Vec<u8> = match header_lookup(&request.headers, xf_name.as_slice()) {
        Some(f) => f,
        None => {
            let now = crate::handlers::session::timestamp_ms();
            let d = clamp_u64(now);
            let mut name = tokens::upload_dash();
            let digits = util::usize_to_dec(d);
            name.extend_from_slice(digits.as_slice());
            let suffix = tokens::dot_bin();
            name.extend_from_slice(suffix.as_slice());
            proof {
                assert(name@ =~= tokens::spec_upload_dash() + util::spec_dec_digits(d as nat)
                    + tokens::spec_dot_bin());
            }
            name
        },
    };
    let safe = sanitize_filename(filename.as_slice());
    UploadOutcome::Save { filename: safe, data: vstd::slice::slice_to_vec(request.body.as_slice()) }
}

/// Narrowing of the clock value for digit formatting.
fn clamp_u64(n: u64) -> (r: usize)
    ensures
        r as nat <= n as nat,
{
    if n > usize::MAX as u64 {
        usize::MAX
    } else {
        n as usize
    }
}

/// `200 OK` with the message reporting a stored upload.
pub fn upload_success_response(filename: &[u8]) -> (r: HttpResponse)
    ensures
        r.status_code == 200,
        r.status_text@ == tokens::spec_status_ok(),
        r.headers.deep_view() == Seq::<(Seq<u8>, Seq<u8>)>::empty(),
        r.body@ == tokens::spec_file_quote() + filename@ + tokens::spec_uploaded_ok(),
{
    let mut msg = tokens::file_quote();
    msg.extend_from_slice(filename);
    let tail = tokens::uploaded_ok();
    msg.extend_from_slice(tail.as_slice());
    HttpResponse::ok_with_message(msg.as_slice())
}

/// Builds the error response for the upload path: the error page read
/// from disk, or a synthesized HTML document; either way
/// `Content-Type: text/html`.
pub fn error_response(code: u16, message: &[u8], page: Option<Vec<u8>>) -> (r: HttpResponse)
    ensures
        r.status_code == code,
        r.status_text@ == message@,
        r.headers.deep_view() == seq![(tokens::spec_content_type(), tokens::spec_text_html())],
        match page {
            Some(content) => r.body@ == content@,
            None => r.body@ == tokens::spec_doctype_h1_open() + util::spec_dec_digits(code as nat)
                + tokens::spec_sp_dash_sp() + message@ + tokens::spec_h1_body_html_close(),
        },
{
    let mut response = HttpResponse::new(code, message);
    let ct = tokens::content_type();
    let html = tokens::text_html();
    response.set_header(ct.as_slice(), html.as_slice());
    proof {
        assert(response.headers.deep_view() =~~= seq![
            (tokens::spec_content_type(), tokens::spec_text_html()),
        ]);
    }
    match page {
        Some(content) => {
            response.set_body_bytes(content);
        },
        None => {
            let mut body = tokens::doctype_h1_open();
            let digits = util::usize_to_dec(code as usize);
            body.extend_from_slice(digits.as_slice());
            let dash = tokens::sp_dash_sp();
            body.extend_from_slice(dash.as_slice());
            body.extend_from_slice(message);
            let close = tokens::h1_body_html_close();
            body.extend_from_slice(close.as_slice());
            response.set_body_bytes(body);
        },
    }
    response
}

} // verus!
