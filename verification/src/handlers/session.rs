//! Session-cookie issuance and lookup: a timestamp-derived opaque
//! first-seen marker, not authentication.

use vstd::prelude::*;

use crate::tokens;
use crate::util;

verus! {

/// Relies on std::time::SystemTime::now: milliseconds since the Unix
/// epoch, or zero when the clock reads earlier than the epoch.
/// Nothing is assumed about the value: it depends on the clock.
#[verifier::external_body]
pub fn timestamp_ms() -> u64 {
    std::time::SystemTime::now().duration_since(std::time::UNIX_EPOCH).map(
        |d| d.as_millis() as u64,
    ).unwrap_or(0)
}

/// A fresh session identifier: `SID_` followed by the decimal
/// milliseconds of the clock.
pub fn create_session_id() -> (r: Vec<u8>)
    ensures
        exists|n: nat| r@ == tokens::spec_sid_prefix() + util::spec_dec_digits(n),
{
    let now = timestamp_ms();
    let mut r = tokens::sid_prefix();
    let digits = usize_of_u64(now);
    let ds = util::usize_to_dec(digits);
    r.extend_from_slice(ds.as_slice());
    proof {
        assert(r@ =~= tokens::spec_sid_prefix() + util::spec_dec_digits(digits as nat));
    }
    r
}

/// Narrowing of the clock value for digit formatting.
fn usize_of_u64(n: u64) -> (r: usize)
    ensures
        r as nat <= n as nat,
{
    if n > usize::MAX as u64 {
        usize::MAX
    } else {
        n as usize
    }
}

/// The session identifier in the parts of a cookie header: the first
/// `;`-separated part that, trimmed, begins with `SID` and has an
/// `=`; its value is the trimmed text between the first and second
/// `=`.
pub open spec fn spec_session_from_parts(parts: Seq<Seq<u8>>) -> Option<Seq<u8>>
    decreases parts.len(),
{
    if parts.len() == 0 {
        None
    } else {
        let t = util::spec_trim(parts[0]);
        let eq_parts = util::spec_split(t, '=' as u8);
        if tokens::spec_sid().is_prefix_of(t) && eq_parts.len() >= 2 {
            Some(util::spec_trim(eq_parts[1]))
        } else {
            spec_session_from_parts(parts.skip(1))
        }
    }
}

/// The session identifier carried by a `Cookie` header, when any.
pub open spec fn spec_session_id(cookie_header: Option<Seq<u8>>) -> Option<Seq<u8>> {
    match cookie_header {
        None => None,
        Some(h) => spec_session_from_parts(util::spec_split(h, ';' as u8)),
    }
}

/// Extracts the `SID` value from a cookie header.
pub fn get_session_id(cookie_header: Option<&[u8]>) -> (r: Option<Vec<u8>>)
    ensures
        r is Some <==> spec_session_id(match cookie_header {
            Some(h) => Some(h@),
            None => None,
        }) is Some,
        r matches Some(v) ==> Some(v@) == spec_session_id(match cookie_header {
            Some(h) => Some(h@),
            None => None,
        }),
{
    let header = match cookie_header {
        Some(h) => h,
        None => {
            return None;
        },
    };
    let parts = util::split_byte(header, ';' as u8);
    let ghost all = parts.deep_view();
    let mut k: usize = 0;
    proof {
        assert(all.skip(0) =~~= all);
    }
    while k < parts.len()
        invariant
            0 <= k <= parts@.len(),
            all == parts.deep_view(),
            all.len() == parts@.len(),
            all == util::spec_split(header@, ';' as u8),
            cookie_header == Some(header),
            spec_session_from_parts(all) == spec_session_from_parts(all.skip(k as int)),
        decreases parts.len() - k,
    {
        let ghost rest = all.skip(k as int);
        proof {
            assert(rest[0] == all[k as int]);
            assert(all[k as int] == parts@[k as int]@);
            assert(rest.skip(1) =~~= all.skip(k as int + 1));
        }
        let part = util::trim(parts[k].as_slice());
        let sid = tokens::sid();
        if util::starts_with(part.as_slice(), sid.as_slice()) {
            let eq_parts = util::split_byte(part.as_slice(), '=' as u8);
            proof {
                util::lemma_split_len(part@, '=' as u8);
            }
            if eq_parts.len() >= 2 {
                assert(eq_parts.deep_view()[1] == eq_parts@[1]@);
                let value = util::trim(eq_parts[1].as_slice());
                proof {
                    assert(tokens::spec_sid().is_prefix_of(util::spec_trim(rest[0])));
                    assert(eq_parts.deep_view() == util::spec_split(
                        util::spec_trim(rest[0]),
                        '=' as u8,
                    ));
                    assert(spec_session_from_parts(rest) == Some(value@));
                }
                return Some(value);
            } else {
                assert(util::spec_split(util::spec_trim(rest[0]), '=' as u8).len() < 2);
            }
        }
        k = k + 1;
    }
    proof {
        assert(all.skip(k as int) =~~= Seq::<Seq<u8>>::empty());
    }
    None
}

} // verus!
