//! The server value and the event loop's verifiable decisions:
//! interest per state, keep-alive, the per-connection reset-or-close
//! choice, and the response's session and connection headers.

use vstd::prelude::*;

use crate::config::types::ServerConfig;
use crate::handlers::session::{create_session_id, get_session_id, spec_session_id};
use crate::http::response::{spec_set_header, HttpResponse};
use crate::network::connection::{ClientConnection, ConnState};
use crate::network::events::Interest;
use crate::tokens;
use crate::util;

verus! {

/// Seconds a connection may sit idle before the cleanup pass drops it.
pub const IDLE_TIMEOUT_SECS: u64 = 30;

/// Milliseconds the poll waits, so that cleanup runs periodically.
pub const TIMEOUT_CHECK_MS: i32 = 1000;

/// Requests served on one connection before it is closed.
pub const MAX_REQUESTS_PER_CONN: u32 = 100;

/// The server: its loaded configuration.
#[derive(Debug)]
pub struct Server {
    pub config: ServerConfig,
}

impl Server {
    /// Wraps a loaded configuration.
    pub fn new(config: ServerConfig) -> (r: Self)
        ensures
            r.config == config,
    {
        Self { config }
    }

    /// The poll interest a connection state asks for; a closing
    /// connection is about to be dropped, so the value is immaterial.
    pub fn get_interest_for_state(&self, state: ConnState) -> (r: Interest)
        ensures
            state is Reading ==> r.read && !r.write,
            state is Writing ==> !r.read && r.write,
            state is Closing ==> r.read && !r.write,
    {
        match state {
            ConnState::Reading => Interest::readable(),
            ConnState::Writing => Interest::writable(),
            ConnState::Closing => Interest::readable(),
        }
    }
}

/// A request asks to keep the connection open unless its `Connection`
/// header is `close`, compared case-insensitively.
pub open spec fn spec_keep_alive_requested(headers: Seq<(Seq<u8>, Seq<u8>)>) -> bool {
    match crate::http::response::spec_header_lookup(headers, tokens::spec_connection()) {
        Some(v) => util::spec_lower(v) != util::spec_lower(tokens::spec_close()),
        None => true,
    }
}

/// Reads the keep-alive wish from a request's headers.
pub fn keep_alive_requested(headers: &Vec<(Vec<u8>, Vec<u8>)>) -> (r: bool)
    ensures
        r == spec_keep_alive_requested(headers.deep_view()),
{
    let name = tokens::connection();
    match crate::http::request::header_lookup(headers, name.as_slice()) {
        Some(v) => {
            let close = tokens::close();
            !util::eq_ignore_case(v.as_slice(), close.as_slice())
        },
        None => true,
    }
}

/// May this connection be reset for another request once its response
/// is out?
pub fn should_reset(conn: &ClientConnection) -> (r: bool)
    ensures
        r == (conn.keep_alive && conn.requests_handled < MAX_REQUESTS_PER_CONN),
{
    conn.keep_alive && conn.requests_handled < MAX_REQUESTS_PER_CONN
}

/// Adds a first-seen session cookie when the request carried none:
/// `Set-Cookie: SID=<id>; Path=/; HttpOnly` for a fresh
/// timestamp-derived identifier.
pub fn attach_session_cookie(response: &mut HttpResponse, cookie_header: Option<&[u8]>)
    ensures
        spec_session_id(match cookie_header {
            Some(h) => Some(h@),
            None => None,
        }) is Some ==> *final(response) == *old(response),
        spec_session_id(match cookie_header {
            Some(h) => Some(h@),
            None => None,
        }) is None ==> {
            &&& exists|n: nat|
                final(response).headers.deep_view() == spec_set_header(
                    old(response).headers.deep_view(),
                    tokens::spec_set_cookie(),
                    tokens::spec_sid_value_prefix() + util::spec_dec_digits(n)
                        + tokens::spec_cookie_attributes(),
                )
            &&& final(response).status_code == old(response).status_code
            &&& final(response).status_text == old(response).status_text
            &&& final(response).body == old(response).body
        },
{
    if get_session_id(cookie_header).is_none() {
        let sid = create_session_id();
        let mut value: Vec<u8> = vec!['S' as u8, 'I' as u8, 'D' as u8, '=' as u8];
        value.extend_from_slice(sid.as_slice());
        let attrs = tokens::cookie_attributes();
        value.extend_from_slice(attrs.as_slice());
        proof {
            let n = choose|n: nat|
                sid@ == tokens::spec_sid_prefix() + util::spec_dec_digits(n);
            assert(value@ =~= tokens::spec_sid_value_prefix() + util::spec_dec_digits(n)
                + tokens::spec_cookie_attributes());
        }
        let name = tokens::set_cookie();
        response.set_header(name.as_slice(), value.as_slice());
    }
}

/// Sets the response's connection headers: `keep-alive` with its
/// timeout note, or `close`.
pub fn set_connection_headers(response: &mut HttpResponse, keep_alive: bool)
    ensures
        keep_alive ==> final(response).headers.deep_view() == spec_set_header(
            spec_set_header(
                old(response).headers.deep_view(),
                tokens::spec_connection(),
                tokens::spec_keep_alive_word(),
            ),
            tokens::spec_keep_alive(),
            tokens::spec_keep_alive_value(),
        ),
        !keep_alive ==> final(response).headers.deep_view() == spec_set_header(
            old(response).headers.deep_view(),
            tokens::spec_connection(),
            tokens::spec_close(),
        ),
        final(response).status_code == old(response).status_code,
        final(response).status_text == old(response).status_text,
        final(response).body == old(response).body,
{
    let conn_name = tokens::connection();
    if keep_alive {
        let ka = tokens::keep_alive_word();
        response.set_header(conn_name.as_slice(), ka.as_slice());
        let ka_name = tokens::keep_alive();
        let ka_value = tokens::keep_alive_value();
        response.set_header(ka_name.as_slice(), ka_value.as_slice());
    } else {
        let close = tokens::close();
        response.set_header(conn_name.as_slice(), close.as_slice());
    }
}

} // verus!
