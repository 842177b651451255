//! The directory listing: an HTML index generated from entry names
//! read outside the library.

use vstd::prelude::*;

use crate::http::response::HttpResponse;
use crate::tokens;

verus! {

/// One listing line: `<li><a href="link">name</a></li>`, where the
/// link is the name under the request path (a root path contributes
/// only its slash).
pub open spec fn spec_listing_item(uri: Seq<u8>, name: Seq<u8>) -> Seq<u8> {
    let link = if uri == seq!['/' as u8] {
        seq!['/' as u8] + name
    } else {
        uri + name
    };
    tokens::spec_li_anchor_open() + link + tokens::spec_quote_gt() + name
        + tokens::spec_anchor_li_close()
}

/// The listing lines for a sequence of entry names, in order.
pub open spec fn spec_listing_items(uri: Seq<u8>, names: Seq<Seq<u8>>) -> Seq<u8>
    decreases names.len(),
{
    if names.len() == 0 {
        Seq::empty()
    } else {
        spec_listing_item(uri, names[0]) + spec_listing_items(uri, names.skip(1))
    }
}

/// The whole listing document.
pub open spec fn spec_listing_html(uri: Seq<u8>, names: Seq<Seq<u8>>) -> Seq<u8> {
    tokens::spec_index_of_h1() + uri + tokens::spec_h1_close() + tokens::spec_ul_open()
        + spec_listing_items(uri, names) + tokens::spec_ul_close()
}

/// Builds the HTML index of a directory from its entry names:
/// `200 OK`, `Content-Type: text/html`.
pub fn list_directory(uri: &[u8], entries: &Vec<Vec<u8>>) -> (r: HttpResponse)
    ensures
        r.status_code == 200,
        r.body@ == spec_listing_html(uri@, entries.deep_view()),
        r.headers.deep_view() == seq![(tokens::spec_content_type(), tokens::spec_text_html())],
{
    let mut html = tokens::index_of_h1();
    html.extend_from_slice(uri);
    let h1c = tokens::h1_close();
    html.extend_from_slice(h1c.as_slice());
    let ulo = tokens::ul_open();
    html.extend_from_slice(ulo.as_slice());
    let ghost all = entries.deep_view();
    let ghost header_part = html@;
    let slash: Vec<u8> = vec!['/' as u8];
    assert(slash@ =~= seq!['/' as u8]);
    let mut k: usize = 0;
    proof {
        assert(all.skip(0) =~~= all);
        assert(html@ + spec_listing_items(uri@, all) =~= header_part + spec_listing_items(
            uri@,
            all,
        ));
    }
    while k < entries.len()
        invariant
            0 <= k <= entries@.len(),
            all == entries.deep_view(),
            all.len() == entries@.len(),
            slash@ == seq!['/' as u8],
            header_part + spec_listing_items(uri@, all) == html@ + spec_listing_items(
                uri@,
                all.skip(k as int),
            ),
        decreases entries.len() - k,
    {
        let ghost rest = all.skip(k as int);
        proof {
            assert(rest[0] == all[k as int]);
            assert(all[k as int] == entries@[k as int]@);
            assert(rest.skip(1) =~~= all.skip(k as int + 1));
        }
        let name = &entries[k];
        let lio = tokens::li_anchor_open();
        html.extend_from_slice(lio.as_slice());
        if crate::util::bytes_eq(uri, slash.as_slice()) {
            html.push('/' as u8);
            html.extend_from_slice(name.as_slice());
        } else {
            html.extend_from_slice(uri);
            html.extend_from_slice(name.as_slice());
        }
        let qgt = tokens::quote_gt();
        html.extend_from_slice(qgt.as_slice());
        html.extend_from_slice(name.as_slice());
        let alc = tokens::anchor_li_close();
        html.extend_from_slice(alc.as_slice());
        proof {
            assert(header_part + spec_listing_items(uri@, all) =~= html@ + spec_listing_items(
                uri@,
                all.skip(k as int + 1),
            ));
        }
        k = k + 1;
    }
    proof {
        assert(all.skip(k as int) =~~= Seq::<Seq<u8>>::empty());
    }
    let ulc = tokens::ul_close();
    html.extend_from_slice(ulc.as_slice());
    let mut resp = HttpResponse::ok();
    let ct = tokens::content_type();
    let th = tokens::text_html();
    resp.set_header(ct.as_slice(), th.as_slice());
    proof {
        assert(resp.headers.deep_view() =~~= seq![
            (tokens::spec_content_type(), tokens::spec_text_html()),
        ]);
    }
    resp.set_body_bytes(html);
    proof {
        assert(resp.body@ =~= spec_listing_html(uri@, entries.deep_view()));
    }
    resp
}

} // verus!
