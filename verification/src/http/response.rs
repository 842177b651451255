//! The HTTP response value and its wire serialization.

use vstd::prelude::*;

use crate::tokens;
use crate::util;

verus! {

/// A fully materialized HTTP response: status, headers in insertion
/// order, and body bytes.
#[derive(Debug, Clone)]
pub struct HttpResponse {
    pub status_code: u16,
    pub status_text: Vec<u8>,
    pub headers: Vec<(Vec<u8>, Vec<u8>)>,
    pub body: Vec<u8>,
}

/// Header list after setting `name` to `value`: the first entry with
/// exactly that name is replaced, otherwise the pair is appended.
pub open spec fn spec_set_header(
    hs: Seq<(Seq<u8>, Seq<u8>)>,
    name: Seq<u8>,
    value: Seq<u8>,
) -> Seq<(Seq<u8>, Seq<u8>)>
    decreases hs.len(),
{
    if hs.len() == 0 {
        seq![(name, value)]
    } else if hs[0].0 == name {
        seq![(name, value)] + hs.skip(1)
    } else {
        seq![hs[0]] + spec_set_header(hs.skip(1), name, value)
    }
}

/// Some entry has the given name, compared case-insensitively.
pub open spec fn spec_has_header_ci(hs: Seq<(Seq<u8>, Seq<u8>)>, name: Seq<u8>) -> bool {
    exists|i: int|
        0 <= i < hs.len() && util::spec_lower((#[trigger] hs[i]).0) == util::spec_lower(name)
}

/// Value of the last entry with the given name, compared
/// case-insensitively.
pub open spec fn spec_header_lookup(hs: Seq<(Seq<u8>, Seq<u8>)>, name: Seq<u8>) -> Option<Seq<u8>>
    decreases hs.len(),
{
    if hs.len() == 0 {
        None
    } else if util::spec_lower(hs.last().0) == util::spec_lower(name) {
        Some(hs.last().1)
    } else {
        spec_header_lookup(hs.drop_last(), name)
    }
}

/// `Key: Value\r\n` for every header, in order.
pub open spec fn spec_header_block(hs: Seq<(Seq<u8>, Seq<u8>)>) -> Seq<u8>
    decreases hs.len(),
{
    if hs.len() == 0 {
        Seq::empty()
    } else {
        hs[0].0 + tokens::spec_colon_sp() + hs[0].1 + tokens::spec_crlf() + spec_header_block(
            hs.skip(1),
        )
    }
}

/// The wire form of a response: status line, headers in insertion
/// order, a synthetic `Content-Length` when none is present, a blank
/// line, and the body.
pub open spec fn spec_serialize(r: HttpResponse) -> Seq<u8> {
    tokens::spec_http11_sp() + util::spec_dec_digits(r.status_code as nat) + seq![' ' as u8]
        + r.status_text@ + tokens::spec_crlf() + spec_header_block(r.headers.deep_view()) + (
    if spec_has_header_ci(r.headers.deep_view(), tokens::spec_content_length()) {
        Seq::<u8>::empty()
    } else {
        tokens::spec_content_length() + tokens::spec_colon_sp() + util::spec_dec_digits(
            r.body@.len(),
        ) + tokens::spec_crlf()
    }) + tokens::spec_crlf() + r.body@
}

pub proof fn lemma_set_header_found(
    hs: Seq<(Seq<u8>, Seq<u8>)>,
    name: Seq<u8>,
    value: Seq<u8>,
    i: int,
)
    requires
        0 <= i < hs.len(),
        hs[i].0 == name,
        forall|j: int| 0 <= j < i ==> (#[trigger] hs[j]).0 != name,
    ensures
        spec_set_header(hs, name, value) == hs.update(i, (name, value)),
    decreases i,
{
    if i == 0 {
        assert(spec_set_header(hs, name, value) =~= hs.update(0, (name, value)));
    } else {
        assert(hs.skip(1)[i - 1].0 == name);
        assert(forall|j: int| 0 <= j < i - 1 ==> (#[trigger] hs.skip(1)[j]).0 != name);
        lemma_set_header_found(hs.skip(1), name, value, i - 1);
        assert(seq![hs[0]] + hs.skip(1).update(i - 1, (name, value)) =~= hs.update(
            i,
            (name, value),
        ));
    }
}

pub proof fn lemma_set_header_missing(hs: Seq<(Seq<u8>, Seq<u8>)>, name: Seq<u8>, value: Seq<u8>)
    requires
        forall|j: int| 0 <= j < hs.len() ==> (#[trigger] hs[j]).0 != name,
    ensures
        spec_set_header(hs, name, value) == hs.push((name, value)),
    decreases hs.len(),
{
    if hs.len() == 0 {
        assert(spec_set_header(hs, name, value) =~= hs.push((name, value)));
    } else {
        lemma_set_header_missing(hs.skip(1), name, value);
        assert(seq![hs[0]] + hs.skip(1).push((name, value)) =~= hs.push((name, value)));
    }
}

impl HttpResponse {
    /// A response with the given status and no headers or body.
    pub fn new(status_code: u16, status_text: &[u8]) -> (r: Self)
        ensures
            r.status_code == status_code,
            r.status_text@ == status_text@,
            r.headers.deep_view() == Seq::<(Seq<u8>, Seq<u8>)>::empty(),
            r.body@ == Seq::<u8>::empty(),
    {
        let r = Self {
            status_code,
            status_text: vstd::slice::slice_to_vec(status_text),
            headers: Vec::new(),
            body: Vec::new(),
        };
        assert(r.headers.deep_view() =~~= Seq::<(Seq<u8>, Seq<u8>)>::empty());
        r
    }

    /// Sets a header: replaces the first entry with exactly this name,
    /// otherwise appends the pair.
    pub fn set_header(&mut self, key: &[u8], value: &[u8])
        ensures
            final(self).headers.deep_view() == spec_set_header(
                old(self).headers.deep_view(),
                key@,
                value@,
            ),
            final(self).status_code == old(self).status_code,
            final(self).status_text == old(self).status_text,
            final(self).body == old(self).body,
    {
        let ghost hs = self.headers.deep_view();
        let mut i: usize = 0;
        while i < self.headers.len()
            invariant
                0 <= i <= self.headers.len(),
                hs == self.headers.deep_view(),
                hs == old(self).headers.deep_view(),
                self.status_code == old(self).status_code,
                self.status_text == old(self).status_text,
                self.body == old(self).body,
                hs.len() == self.headers@.len(),
                forall|j: int| 0 <= j < i ==> (#[trigger] hs[j]).0 != key@,
            decreases self.headers.len() - i,
        {
            assert(hs[i as int].0 == self.headers@[i as int].0@);
            if util::bytes_eq(self.headers[i].0.as_slice(), key) {
                let entry = (vstd::slice::slice_to_vec(key), vstd::slice::slice_to_vec(value));
                self.headers.set(i, entry);
                proof {
                    assert(self.headers.deep_view() =~~= hs.update(i as int, (key@, value@)));
                    lemma_set_header_found(hs, key@, value@, i as int);
                }
                return ;
            }
            i = i + 1;
        }
        let entry = (vstd::slice::slice_to_vec(key), vstd::slice::slice_to_vec(value));
        let ghost pre = self.headers.deep_view();
        self.headers.push(entry);
        proof {
            assert(self.headers.deep_view() =~~= pre.push((key@, value@)));
            lemma_set_header_missing(hs, key@, value@);
        }
    }

    /// Replaces the body with the given bytes.
    pub fn set_body(&mut self, text: &[u8])
        ensures
            final(self).body@ == text@,
            final(self).status_code == old(self).status_code,
            final(self).status_text == old(self).status_text,
            final(self).headers == old(self).headers,
    {
        self.body = vstd::slice::slice_to_vec(text);
    }

    /// Replaces the body with the given vector.
    pub fn set_body_bytes(&mut self, bytes: Vec<u8>)
        ensures
            final(self).body == bytes,
            final(self).status_code == old(self).status_code,
            final(self).status_text == old(self).status_text,
            final(self).headers == old(self).headers,
    {
        self.body = bytes;
    }

    /// Serializes the response to its wire form.
    pub fn to_bytes(&self) -> (r: Vec<u8>)
        ensures
            r@ == spec_serialize(*self),
    {
        let mut out: Vec<u8> = tokens::http11_sp();
        let code = usize_from_u16(self.status_code);
        let digits = util::usize_to_dec(code);
        out.extend_from_slice(digits.as_slice());
        out.push(' ' as u8);
        out.extend_from_slice(self.status_text.as_slice());
        let crlf = tokens::crlf();
        out.extend_from_slice(crlf.as_slice());

        let ghost hs = self.headers.deep_view();
        let mut i: usize = 0;
        let ghost out_pre = out@;
        proof {
            assert(hs.skip(0) =~~= hs);
        }
        while i < self.headers.len()
            invariant
                0 <= i <= self.headers.len(),
                hs == self.headers.deep_view(),
                hs.len() == self.headers@.len(),
                crlf@ == tokens::spec_crlf(),
                out_pre + spec_header_block(hs) == out@ + spec_header_block(hs.skip(i as int)),
            decreases self.headers.len() - i,
        {
            let ghost rest = hs.skip(i as int);
            proof {
                assert(rest[0] == hs[i as int]);
                assert(rest.skip(1) =~~= hs.skip(i as int + 1));
                assert(hs[i as int].0 == self.headers@[i as int].0@);
                assert(hs[i as int].1 == self.headers@[i as int].1@);
            }
            out.extend_from_slice(self.headers[i].0.as_slice());
            let cs = tokens::colon_sp();
            out.extend_from_slice(cs.as_slice());
            out.extend_from_slice(self.headers[i].1.as_slice());
            out.extend_from_slice(crlf.as_slice());
            proof {
                assert(out_pre + spec_header_block(hs) =~= out@ + spec_header_block(
                    hs.skip(i as int + 1),
                ));
            }
            i = i + 1;
        }
        proof {
            assert(hs.skip(i as int) =~~= Seq::<(Seq<u8>, Seq<u8>)>::empty());
            assert(spec_header_block(hs.skip(i as int)) =~= Seq::<u8>::empty());
            assert(out@ =~= out_pre + spec_header_block(hs));
        }

        let cl = tokens::content_length();
        if !self.has_header(cl.as_slice()) {
            let name = tokens::content_length();
            out.extend_from_slice(name.as_slice());
            let cs = tokens::colon_sp();
            out.extend_from_slice(cs.as_slice());
            let len_digits = util::usize_to_dec(self.body.len());
            out.extend_from_slice(len_digits.as_slice());
            out.extend_from_slice(crlf.as_slice());
        }
        out.extend_from_slice(crlf.as_slice());
        out.extend_from_slice(self.body.as_slice());
        assert(out@ =~= spec_serialize(*self));
        out
    }

    /// Is a header with this name present, compared
    /// case-insensitively?
    pub fn has_header(&self, name: &[u8]) -> (r: bool)
        ensures
            r == spec_has_header_ci(self.headers.deep_view(), name@),
    {
        let ghost hs = self.headers.deep_view();
        let mut i: usize = 0;
        while i < self.headers.len()
            invariant
                0 <= i <= self.headers.len(),
                hs == self.headers.deep_view(),
                hs.len() == self.headers@.len(),
                forall|j: int|
                    0 <= j < i ==> util::spec_lower((#[trigger] hs[j]).0) != util::spec_lower(
                        name@,
                    ),
            decreases self.headers.len() - i,
        {
            assert(hs[i as int].0 == self.headers@[i as int].0@);
            if util::eq_ignore_case(self.headers[i].0.as_slice(), name) {
                return true;
            }
            i = i + 1;
        }
        false
    }

    /// `200 OK`.
    pub fn ok() -> (r: Self)
        ensures
            r.status_code == 200,
            r.status_text@ == tokens::spec_status_ok(),
            r.headers.deep_view() == Seq::<(Seq<u8>, Seq<u8>)>::empty(),
            r.body@ == Seq::<u8>::empty(),
    {
        let text = tokens::status_ok();
        Self::new(200, text.as_slice())
    }

    /// `404 Not Found`.
    pub fn not_found() -> (r: Self)
        ensures
            r.status_code == 404,
            r.status_text@ == tokens::spec_status_not_found(),
            r.headers.deep_view() == Seq::<(Seq<u8>, Seq<u8>)>::empty(),
            r.body@ == Seq::<u8>::empty(),
    {
        let text = tokens::status_not_found();
        Self::new(404, text.as_slice())
    }

    /// `400 Bad Request`.
    pub fn bad_request() -> (r: Self)
        ensures
            r.status_code == 400,
            r.status_text@ == tokens::spec_status_bad_request(),
            r.headers.deep_view() == Seq::<(Seq<u8>, Seq<u8>)>::empty(),
            r.body@ == Seq::<u8>::empty(),
    {
        let text = tokens::status_bad_request();
        Self::new(400, text.as_slice())
    }

    /// `405 Method Not Allowed`.
    pub fn method_not_allowed() -> (r: Self)
        ensures
            r.status_code == 405,
            r.status_text@ == tokens::spec_status_method_not_allowed(),
            r.headers.deep_view() == Seq::<(Seq<u8>, Seq<u8>)>::empty(),
            r.body@ == Seq::<u8>::empty(),
    {
        let text = tokens::status_method_not_allowed();
        Self::new(405, text.as_slice())
    }

    /// `403 Forbidden`.
    pub fn forbidden() -> (r: Self)
        ensures
            r.status_code == 403,
            r.status_text@ == tokens::spec_status_forbidden(),
            r.headers.deep_view() == Seq::<(Seq<u8>, Seq<u8>)>::empty(),
            r.body@ == Seq::<u8>::empty(),
    {
        let text = tokens::status_forbidden();
        Self::new(403, text.as_slice())
    }

    /// `500 Internal Server Error`.
    pub fn internal_error() -> (r: Self)
        ensures
            r.status_code == 500,
            r.status_text@ == tokens::spec_status_internal_error(),
            r.headers.deep_view() == Seq::<(Seq<u8>, Seq<u8>)>::empty(),
            r.body@ == Seq::<u8>::empty(),
    {
        let text = tokens::status_internal_error();
        Self::new(500, text.as_slice())
    }

    /// `413 Payload Too Large`.
    pub fn payload_too_large() -> (r: Self)
        ensures
            r.status_code == 413,
            r.status_text@ == tokens::spec_status_payload_too_large(),
            r.headers.deep_view() == Seq::<(Seq<u8>, Seq<u8>)>::empty(),
            r.body@ == Seq::<u8>::empty(),
    {
        let text = tokens::status_payload_too_large();
        Self::new(413, text.as_slice())
    }

    /// `200 OK` with the given message as body.
    pub fn ok_with_message(msg: &[u8]) -> (r: Self)
        ensures
            r.status_code == 200,
            r.status_text@ == tokens::spec_status_ok(),
            r.headers.deep_view() == Seq::<(Seq<u8>, Seq<u8>)>::empty(),
            r.body@ == msg@,
    {
        let mut response = Self::ok();
        response.set_body(msg);
        response
    }
}

/// Widening of a status code for digit formatting.
fn usize_from_u16(n: u16) -> (r: usize)
    ensures
        r == n as usize,
{
    n as usize
}

} // verus!
