//! The request router: URL decoding, traversal-safe path resolution,
//! virtual-host selection, longest-prefix route matching, and the
//! dispatch decision for a parsed request.

use vstd::prelude::*;

use crate::config::types::{RouteConfig, RouteModel, ServerConfig, VHost, VHostModel};
use crate::http::request::{spec_find, header_lookup, HttpRequest};
use crate::http::response::spec_header_lookup;
use crate::http::response::HttpResponse;
use crate::tokens;
use crate::util;

verus! {

/// The byte a pair of hexadecimal digits encodes.
pub open spec fn spec_hex_byte(h1: u8, h2: u8) -> u8 {
    (util::hval(h1) * 16 + util::hval(h2)) as u8
}

/// URL decoding: `%HH` becomes the encoded byte, `+` becomes a space;
/// a `%` not followed by two hexadecimal digits is kept together with
/// the one or two bytes after it.
pub open spec fn spec_url_decode(s: Seq<u8>) -> Seq<u8>
    decreases s.len(),
{
    if s.len() == 0 {
        Seq::empty()
    } else if s[0] == '%' as u8 {
        if s.len() >= 3 && util::is_hex_digit(s[1]) && util::is_hex_digit(s[2]) {
            seq![spec_hex_byte(s[1], s[2])] + spec_url_decode(s.skip(3))
        } else if s.len() >= 3 {
            s.take(3) + spec_url_decode(s.skip(3))
        } else {
            s
        }
    } else if s[0] == '+' as u8 {
        seq![' ' as u8] + spec_url_decode(s.skip(1))
    } else {
        seq![s[0]] + spec_url_decode(s.skip(1))
    }
}

/// URL-decodes a byte string.
pub fn url_decode(s: &[u8]) -> (r: Vec<u8>)
    ensures
        r@ == spec_url_decode(s@),
{
    let mut out: Vec<u8> = Vec::new();
    let mut i: usize = 0;
    proof {
        assert(s@.skip(0) =~= s@);
        assert(out@ + spec_url_decode(s@) =~= spec_url_decode(s@));
    }
    while i < s.len()
        invariant
            0 <= i <= s@.len(),
            spec_url_decode(s@) == out@ + spec_url_decode(s@.skip(i as int)),
        decreases s@.len() - i,
    {
        let ghost suffix = s@.skip(i as int);
        let ghost pre = out@;
        proof {
            assert(suffix[0] == s@[i as int]);
        }
        let b = s[i];
        if b == '%' as u8 {
            if s.len() - i >= 3 {
                proof {
                    assert(suffix.len() >= 3);
                    assert(suffix[1] == s@[i + 1]);
                    assert(suffix[2] == s@[i + 2]);
                }
                let h1 = s[i + 1];
                let h2 = s[i + 2];
                match (util::hex_digit_value(h1), util::hex_digit_value(h2)) {
                    (Some(v1), Some(v2)) => {
                        out.push((v1 * 16 + v2) as u8);
                        proof {
                            assert(suffix.skip(3) =~= s@.skip(i as int + 3));
                            assert(pre + (seq![spec_hex_byte(suffix[1], suffix[2])]
                                + spec_url_decode(suffix.skip(3))) =~= out@ + spec_url_decode(
                                s@.skip(i as int + 3),
                            ));
                        }
                    },
                    _ => {
                        out.push(b);
                        out.push(h1);
                        out.push(h2);
                        proof {
                            assert(suffix.take(3) =~= seq![b, h1, h2]);
                            assert(suffix.skip(3) =~= s@.skip(i as int + 3));
                            assert(pre + (suffix.take(3) + spec_url_decode(suffix.skip(3)))
                                =~= out@ + spec_url_decode(s@.skip(i as int + 3)));
                        }
                    },
                }
                i = i + 3;
            } else {
                let mut j = i;
                while j < s.len()
                    invariant
                        i <= j <= s@.len(),
                        out@ == pre + s@.subrange(i as int, j as int),
                    decreases s@.len() - j,
                {
                    out.push(s[j]);
                    proof {
                        assert(pre + s@.subrange(i as int, j as int) + seq![s@[j as int]]
                            =~= pre + s@.subrange(i as int, j as int + 1));
                    }
                    j = j + 1;
                }
                proof {
                    assert(suffix =~= s@.subrange(i as int, s@.len() as int));
                    assert(suffix.len() < 3);
                    assert(spec_url_decode(suffix) == suffix);
                    assert(s@.skip(s@.len() as int) =~= Seq::<u8>::empty());
                    assert(spec_url_decode(s@.skip(s@.len() as int)) =~= Seq::<u8>::empty());
                    assert(out@ + spec_url_decode(s@.skip(s@.len() as int)) =~= pre + suffix);
                }
                i = s.len();
            }
        } else if b == '+' as u8 {
            out.push(' ' as u8);
            proof {
                assert(suffix.skip(1) =~= s@.skip(i as int + 1));
                assert(pre + (seq![' ' as u8] + spec_url_decode(suffix.skip(1))) =~= out@
                    + spec_url_decode(s@.skip(i as int + 1)));
            }
            i = i + 1;
        } else {
            out.push(b);
            proof {
                assert(suffix.skip(1) =~= s@.skip(i as int + 1));
                assert(pre + (seq![b] + spec_url_decode(suffix.skip(1))) =~= out@
                    + spec_url_decode(s@.skip(i as int + 1)));
            }
            i = i + 1;
        }
    }
    proof {
        assert(s@.skip(i as int) =~= Seq::<u8>::empty());
        assert(out@ + spec_url_decode(s@.skip(i as int)) =~= out@);
    }
    out
}

/// `".."`.
pub open spec fn spec_dotdot() -> Seq<u8> {
    seq!['.' as u8, '.' as u8]
}

/// `"//"`.
pub open spec fn spec_slashslash() -> Seq<u8> {
    seq!['/' as u8, '/' as u8]
}

/// A path is safe when its decoded form holds no `..`, no NUL byte,
/// and no `//`.
pub open spec fn spec_path_safe(path: Seq<u8>) -> bool {
    let d = spec_url_decode(path);
    &&& !(exists|i: int| #[trigger] util::match_at(d, spec_dotdot(), i))
    &&& !d.contains(0u8)
    &&& !(exists|i: int| #[trigger] util::match_at(d, spec_slashslash(), i))
}

/// Checks a request path for traversal patterns, NUL bytes and double
/// slashes, raw or URL-encoded.
pub fn is_path_safe(path: &[u8]) -> (r: bool)
    ensures
        r == spec_path_safe(path@),
{
    let decoded = url_decode(path);
    let dotdot: Vec<u8> = vec!['.' as u8, '.' as u8];
    assert(dotdot@ =~= spec_dotdot());
    if util::contains_seq(decoded.as_slice(), dotdot.as_slice()) {
        return false;
    }
    if util::contains_byte(decoded.as_slice(), 0u8) {
        return false;
    }
    let slashslash: Vec<u8> = vec!['/' as u8, '/' as u8];
    assert(slashslash@ =~= spec_slashslash());
    if util::contains_seq(decoded.as_slice(), slashslash.as_slice()) {
        return false;
    }
    true
}

/// Joining decoded path components under a base directory: empty and
/// `.` components are skipped, a `..` component or a NUL byte rejects
/// the path, anything else is appended after a slash.
pub open spec fn spec_join_components(base: Seq<u8>, parts: Seq<Seq<u8>>) -> Option<Seq<u8>>
    decreases parts.len(),
{
    if parts.len() == 0 {
        Some(base)
    } else {
        let p = parts[0];
        if p.len() == 0 || p == seq!['.' as u8] {
            spec_join_components(base, parts.skip(1))
        } else if p == seq!['.' as u8, '.' as u8] || p.contains(0u8) {
            None
        } else {
            spec_join_components(base + seq!['/' as u8] + p, parts.skip(1))
        }
    }
}

/// Traversal-safe resolution of a user-supplied path under a base
/// directory: URL-decode, reject an absolute path, then join the
/// components, rejecting any parent reference or NUL byte.
pub open spec fn spec_sanitize_path(base: Seq<u8>, user_path: Seq<u8>) -> Option<Seq<u8>> {
    let d = spec_url_decode(user_path);
    if d.len() > 0 && d[0] == '/' as u8 {
        None
    } else {
        spec_join_components(base, util::spec_split(d, '/' as u8))
    }
}

/// Resolves `user_path` under `base`, refusing directory traversal.
pub fn sanitize_path(base: &[u8], user_path: &[u8]) -> (r: Option<Vec<u8>>)
    ensures
        r is Some <==> spec_sanitize_path(base@, user_path@) is Some,
        r matches Some(v) ==> Some(v@) == spec_sanitize_path(base@, user_path@),
{
    let decoded = url_decode(user_path);
    if decoded.len() > 0 && decoded[0] == '/' as u8 {
        return None;
    }
    let parts = util::split_byte(decoded.as_slice(), '/' as u8);
    let ghost all = parts.deep_view();
    let mut acc: Vec<u8> = vstd::slice::slice_to_vec(base);
    let mut k: usize = 0;
    proof {
        assert(all.skip(0) =~~= all);
    }
    while k < parts.len()
        invariant
            0 <= k <= parts@.len(),
            all == parts.deep_view(),
            all.len() == parts@.len(),
            spec_sanitize_path(base@, user_path@) == spec_join_components(base@, all),
            spec_join_components(base@, all) == spec_join_components(acc@, all.skip(k as int)),
        decreases parts.len() - k,
    {
        let ghost rest = all.skip(k as int);
        proof {
            assert(rest[0] == all[k as int]);
            assert(all[k as int] == parts@[k as int]@);
            assert(rest.skip(1) =~~= all.skip(k as int + 1));
        }
        let part = &parts[k];
        let dot: Vec<u8> = vec!['.' as u8];
        assert(dot@ =~= seq!['.' as u8]);
        let dotdot: Vec<u8> = vec!['.' as u8, '.' as u8];
        assert(dotdot@ =~= seq!['.' as u8, '.' as u8]);
        if part.len() == 0 || util::bytes_eq(part.as_slice(), dot.as_slice()) {
            proof {
                assert(rest[0].len() == 0 || rest[0] == seq!['.' as u8]);
            }
        } else if util::bytes_eq(part.as_slice(), dotdot.as_slice()) || util::contains_byte(
            part.as_slice(),
            0u8,
        ) {
            proof {
                assert(rest[0] == spec_dotdot() || rest[0].contains(0u8));
                assert(spec_join_components(acc@, rest) is None);
            }
            return None;
        } else {
            let ghost pre = acc@;
            acc.push('/' as u8);
            acc.extend_from_slice(part.as_slice());
            proof {
                assert(acc@ =~= pre + seq!['/' as u8] + rest[0]);
            }
        }
        k = k + 1;
    }
    proof {
        assert(all.skip(k as int) =~~= Seq::<Seq<u8>>::empty());
    }
    Some(acc)
}

/// The path without leading slashes.
pub open spec fn spec_trim_slashes(s: Seq<u8>) -> Seq<u8>
    decreases s.len(),
{
    if s.len() > 0 && s[0] == '/' as u8 {
        spec_trim_slashes(s.skip(1))
    } else {
        s
    }
}

proof fn lemma_trim_slashes_skip(s: Seq<u8>, i: int)
    requires
        0 <= i <= s.len(),
        forall|k: int| 0 <= k < i ==> s[k] == '/' as u8,
        i == s.len() || s[i] != '/' as u8,
    ensures
        spec_trim_slashes(s) == s.skip(i),
    decreases i,
{
    if i == 0 {
        assert(s.skip(0) =~= s);
    } else {
        lemma_trim_slashes_skip(s.skip(1), i - 1);
        assert(s.skip(1).skip(i - 1) =~= s.skip(i));
    }
}

/// Removes leading slashes.
pub fn trim_leading_slashes(s: &[u8]) -> (r: Vec<u8>)
    ensures
        r@ == spec_trim_slashes(s@),
{
    let mut i: usize = 0;
    while i < s.len() && s[i] == '/' as u8
        invariant
            0 <= i <= s@.len(),
            forall|k: int| 0 <= k < i ==> s@[k] == '/' as u8,
        decreases s@.len() - i,
    {
        i = i + 1;
    }
    proof {
        lemma_trim_slashes_skip(s@, i as int);
    }
    util::subvec(s, i, s.len())
}

/// The path after a matched prefix; the whole path when the prefix
/// does not match.
pub open spec fn spec_strip_prefix_or(s: Seq<u8>, prefix: Seq<u8>, whole: Seq<u8>) -> Seq<u8> {
    if prefix.is_prefix_of(s) {
        s.skip(prefix.len() as int)
    } else {
        whole
    }
}

/// `dir`, a slash, and `name`.
pub open spec fn spec_join_path(dir: Seq<u8>, name: Seq<u8>) -> Seq<u8> {
    dir + seq!['/' as u8] + name
}

/// Joins a directory and a file name with a slash.
pub fn join_path(dir: &[u8], name: &[u8]) -> (r: Vec<u8>)
    ensures
        r@ == spec_join_path(dir@, name@),
{
    let mut out = vstd::slice::slice_to_vec(dir);
    out.push('/' as u8);
    out.extend_from_slice(name);
    assert(out@ =~= spec_join_path(dir@, name@));
    out
}

/// The content type inferred from a file extension.
pub open spec fn spec_content_type(path: Seq<u8>) -> Seq<u8> {
    if tokens::spec_dot_html().is_suffix_of(path) {
        tokens::spec_text_html()
    } else if tokens::spec_dot_css().is_suffix_of(path) {
        tokens::spec_text_css()
    } else if tokens::spec_dot_js().is_suffix_of(path) {
        tokens::spec_application_javascript()
    } else if tokens::spec_dot_json().is_suffix_of(path) {
        tokens::spec_application_json()
    } else if tokens::spec_dot_png().is_suffix_of(path) {
        tokens::spec_image_png()
    } else if tokens::spec_dot_jpg().is_suffix_of(path) || tokens::spec_dot_jpeg().is_suffix_of(
        path,
    ) {
        tokens::spec_image_jpeg()
    } else if tokens::spec_dot_gif().is_suffix_of(path) {
        tokens::spec_image_gif()
    } else if tokens::spec_dot_txt().is_suffix_of(path) {
        tokens::spec_text_plain()
    } else {
        tokens::spec_application_octet_stream()
    }
}

/// Infers a `Content-Type` from the file extension.
pub fn get_content_type(file_path: &[u8]) -> (r: Vec<u8>)
    ensures
        r@ == spec_content_type(file_path@),
{
    let dot_html = tokens::dot_html();
    let dot_css = tokens::dot_css();
    let dot_js = tokens::dot_js();
    let dot_json = tokens::dot_json();
    let dot_png = tokens::dot_png();
    let dot_jpg = tokens::dot_jpg();
    let dot_jpeg = tokens::dot_jpeg();
    let dot_gif = tokens::dot_gif();
    let dot_txt = tokens::dot_txt();
    if util::ends_with(file_path, dot_html.as_slice()) {
        tokens::text_html()
    } else if util::ends_with(file_path, dot_css.as_slice()) {
        tokens::text_css()
    } else if util::ends_with(file_path, dot_js.as_slice()) {
        tokens::application_javascript()
    } else if util::ends_with(file_path, dot_json.as_slice()) {
        tokens::application_json()
    } else if util::ends_with(file_path, dot_png.as_slice()) {
        tokens::image_png()
    } else if util::ends_with(file_path, dot_jpg.as_slice()) || util::ends_with(
        file_path,
        dot_jpeg.as_slice(),
    ) {
        tokens::image_jpeg()
    } else if util::ends_with(file_path, dot_gif.as_slice()) {
        tokens::image_gif()
    } else if util::ends_with(file_path, dot_txt.as_slice()) {
        tokens::text_plain()
    } else {
        tokens::application_octet_stream()
    }
}

/// Route chosen for a request path: among the routes whose path is a
/// longest prefix of the request path, the first in declaration
/// order.
pub open spec fn spec_find_route(path: Seq<u8>, routes: Seq<RouteModel>) -> Option<int>
    decreases routes.len(),
{
    if routes.len() == 0 {
        None
    } else {
        let rest = spec_find_route(path, routes.drop_last());
        if routes.last().path.is_prefix_of(path) {
            match rest {
                None => Some(routes.len() - 1),
                Some(j) => if routes[j].path.len() >= routes.last().path.len() {
                    Some(j)
                } else {
                    Some(routes.len() - 1)
                },
            }
        } else {
            rest
        }
    }
}

/// The selected route's path prefixes the request path, no prefixing
/// route has a longer path, and of the routes tied at that length the
/// first declared is the one selected: longest-prefix match with ties
/// broken by declaration order.
pub proof fn lemma_find_route_longest_prefix(path: Seq<u8>, routes: Seq<RouteModel>)
    ensures
        spec_find_route(path, routes) matches Some(j) ==> 0 <= j < routes.len()
            && routes[j].path.is_prefix_of(path) && (forall|i: int|
            0 <= i < routes.len() && (#[trigger] routes[i]).path.is_prefix_of(path)
                ==> routes[i].path.len() <= routes[j].path.len()) && (forall|i: int|
            0 <= i < j && (#[trigger] routes[i]).path.is_prefix_of(path) ==> routes[i].path.len()
                < routes[j].path.len()),
        spec_find_route(path, routes) is None ==> forall|i: int|
            0 <= i < routes.len() ==> !(#[trigger] routes[i]).path.is_prefix_of(path),
    decreases routes.len(),
{
    if routes.len() > 0 {
        lemma_find_route_longest_prefix(path, routes.drop_last());
        assert(forall|i: int|
            0 <= i < routes.len() - 1 ==> #[trigger] routes[i] == routes.drop_last()[i]);
    }
}

/// Matches the request path against the routes: longest prefix wins,
/// and of equal-length prefixes the first declared wins.
pub fn find_route<'a>(request: &HttpRequest, routes: &'a [RouteConfig]) -> (r: Option<
    &'a RouteConfig,
>)
    ensures
        match r {
            Some(rt) => spec_find_route(request.path@, routes.deep_view()) matches Some(j) && rt@
                == routes.deep_view()[j],
            None => spec_find_route(request.path@, routes.deep_view()) is None,
        },
{
    let ghost dv = routes.deep_view();
    let ghost path = request.path@;
    let mut best: Option<usize> = None;
    let mut i: usize = 0;
    proof {
        assert(dv.take(0) =~~= Seq::<RouteModel>::empty());
    }
    while i < routes.len()
        invariant
            0 <= i <= routes@.len(),
            dv == routes.deep_view(),
            dv.len() == routes@.len(),
            path == request.path@,
            match best {
                None => spec_find_route(path, dv.take(i as int)) is None,
                Some(b) => b < i && spec_find_route(path, dv.take(i as int)) == Some(b as int),
            },
        decreases routes.len() - i,
    {
        proof {
            assert(dv.take(i as int + 1).drop_last() =~~= dv.take(i as int));
            assert(dv.take(i as int + 1).last() == dv[i as int]);
            assert(dv[i as int] == routes@[i as int]@);
        }
        let candidate = vstd::slice::slice_index_get(routes, i);
        if util::starts_with(request.path.as_slice(), candidate.path.as_slice()) {
            assert(dv[i as int].path.is_prefix_of(path));
            match best {
                None => {
                    best = Some(i);
                },
                Some(b) => {
                    assert(dv[b as int] == routes@[b as int]@);
                    let prev = vstd::slice::slice_index_get(routes, b);
                    if prev.path.len() >= candidate.path.len() {
                        best = Some(b);
                    } else {
                        best = Some(i);
                    }
                },
            }
        } else {
            assert(!dv[i as int].path.is_prefix_of(path));
        }
        i = i + 1;
    }
    proof {
        assert(dv.take(i as int) =~~= dv);
    }
    match best {
        Some(b) => Some(vstd::slice::slice_index_get(routes, b)),
        None => None,
    }
}

/// Index of the first virtual host with the given name.
pub open spec fn spec_vhost_index(host: Seq<u8>, vhosts: Seq<VHostModel>) -> Option<int>
    decreases vhosts.len(),
{
    if vhosts.len() == 0 {
        None
    } else if vhosts[0].name == host {
        Some(0)
    } else {
        match spec_vhost_index(host, vhosts.skip(1)) {
            Some(j) => Some(j + 1),
            None => None,
        }
    }
}

/// The host a request names: the `Host` header value up to an
/// optional `:port`.
pub open spec fn spec_request_host(headers: Seq<(Seq<u8>, Seq<u8>)>) -> Option<Seq<u8>> {
    match spec_header_lookup(headers, tokens::spec_host()) {
        None => None,
        Some(h) => match spec_find(h, seq![':' as u8], 0) {
            Some(c) => Some(h.take(c)),
            None => Some(h),
        },
    }
}

/// The virtual host selected by the request's `Host` header.
pub open spec fn spec_find_vhost(
    headers: Seq<(Seq<u8>, Seq<u8>)>,
    vhosts: Seq<VHostModel>,
) -> Option<int> {
    match spec_request_host(headers) {
        None => None,
        Some(host) => spec_vhost_index(host, vhosts),
    }
}

proof fn lemma_vhost_index_first(host: Seq<u8>, vhosts: Seq<VHostModel>, i: int)
    requires
        0 <= i < vhosts.len(),
        vhosts[i].name == host,
        forall|m: int| 0 <= m < i ==> (#[trigger] vhosts[m]).name != host,
    ensures
        spec_vhost_index(host, vhosts) == Some(i),
    decreases i,
{
    if i > 0 {
        assert(vhosts.skip(1)[i - 1].name == host);
        assert(forall|m: int| 0 <= m < i - 1 ==> (#[trigger] vhosts.skip(1)[m]).name != host);
        lemma_vhost_index_first(host, vhosts.skip(1), i - 1);
    }
}

proof fn lemma_vhost_index_none(host: Seq<u8>, vhosts: Seq<VHostModel>)
    requires
        forall|m: int| 0 <= m < vhosts.len() ==> (#[trigger] vhosts[m]).name != host,
    ensures
        spec_vhost_index(host, vhosts) is None,
    decreases vhosts.len(),
{
    if vhosts.len() > 0 {
        lemma_vhost_index_none(host, vhosts.skip(1));
    }
}

/// Picks the first virtual host whose name equals the request's host.
pub fn find_vhost<'a>(request: &HttpRequest, vhosts: &'a [VHost]) -> (r: Option<&'a VHost>)
    ensures
        match r {
            Some(v) => spec_find_vhost(request@.headers, vhosts.deep_view()) matches Some(j) && v@
                == vhosts.deep_view()[j],
            None => spec_find_vhost(request@.headers, vhosts.deep_view()) is None,
        },
{
    let ghost dv = vhosts.deep_view();
    let host_name = tokens::host();
    let header = match header_lookup(&request.headers, host_name.as_slice()) {
        Some(h) => h,
        None => {
            return None;
        },
    };
    let colon: Vec<u8> = vec![':' as u8];
    assert(colon@ =~= seq![':' as u8]);
    let host = match crate::http::request::find_from(header.as_slice(), colon.as_slice(), 0) {
        Some(c) => util::subvec(header.as_slice(), 0, c),
        None => header,
    };
    let ghost shost = spec_request_host(request@.headers)->Some_0;
    assert(host@ == shost);
    let mut i: usize = 0;
    while i < vhosts.len()
        invariant
            0 <= i <= vhosts@.len(),
            dv == vhosts.deep_view(),
            dv.len() == vhosts@.len(),
            host@ == shost,
            spec_request_host(request@.headers) == Some(shost),
            forall|m: int| 0 <= m < i ==> (#[trigger] dv[m]).name != shost,
        decreases vhosts.len() - i,
    {
        assert(dv[i as int] == vhosts@[i as int]@);
        let candidate = vstd::slice::slice_index_get(vhosts, i);
        if util::bytes_eq(candidate.name.as_slice(), host.as_slice()) {
            proof {
                lemma_vhost_index_first(shost, dv, i as int);
            }
            return Some(candidate);
        }
        i = i + 1;
    }
    proof {
        lemma_vhost_index_none(shost, dv);
    }
    None
}

/// Is the method in the route's allowed set, compared
/// case-insensitively?
pub open spec fn spec_method_allowed(method: Seq<u8>, methods: Seq<Seq<u8>>) -> bool {
    exists|i: int|
        0 <= i < methods.len() && util::spec_lower(#[trigger] methods[i]) == util::spec_lower(
            method,
        )
}

/// Checks the method against a route's allowed set.
fn method_allowed(method: &[u8], methods: &Vec<Vec<u8>>) -> (r: bool)
    ensures
        r == spec_method_allowed(method@, methods.deep_view()),
{
    let ghost dv = methods.deep_view();
    let mut i: usize = 0;
    while i < methods.len()
        invariant
            0 <= i <= methods@.len(),
            dv == methods.deep_view(),
            dv.len() == methods@.len(),
            forall|m: int|
                0 <= m < i ==> util::spec_lower(#[trigger] dv[m]) != util::spec_lower(method@),
        decreases methods.len() - i,
    {
        assert(dv[i as int] == methods@[i as int]@);
        if util::eq_ignore_case(methods[i].as_slice(), method) {
            return true;
        }
        i = i + 1;
    }
    false
}

/// Does a route path mention the upload area?
pub open spec fn spec_touches_upload(path: Seq<u8>) -> bool {
    exists|i: int| #[trigger] util::match_at(path, tokens::spec_slash_upload(), i)
}

/// What the router decides for a request: an immediate error page, a
/// redirect, or work that needs the filesystem or a subprocess.
#[derive(Debug)]
pub enum RouteDecision {
    /// Respond with this status; the body comes from the error-page
    /// directory, or is synthesized.
    ErrorPage { code: u16, message: Vec<u8>, error_path: Vec<u8> },
    /// `302 Found` with this `Location`.
    Redirect { location: Vec<u8> },
    /// Store the request body via the upload handler.
    Upload { error_path: Vec<u8> },
    /// Remove the file the request path names under the uploads
    /// directory.
    Delete,
    /// Run this script with the request, `PATH_INFO` set to the
    /// request path.
    Cgi { script_path: Vec<u8>, path_info: Vec<u8> },
    /// Serve the resolved filesystem path: a file directly, a
    /// directory through its default file or a generated listing.
    ServeStatic {
        fs_path: Vec<u8>,
        default_file: Option<Vec<u8>>,
        autoindex: bool,
        error_path: Vec<u8>,
        request_path: Vec<u8>,
    },
}

/// The mathematical value of a routing decision.
#[verifier::ext_equal]
pub ghost enum DecisionModel {
    ErrorPage { code: u16, message: Seq<u8>, error_path: Seq<u8> },
    Redirect { location: Seq<u8> },
    Upload { error_path: Seq<u8> },
    Delete,
    Cgi { script_path: Seq<u8>, path_info: Seq<u8> },
    ServeStatic {
        fs_path: Seq<u8>,
        default_file: Option<Seq<u8>>,
        autoindex: bool,
        error_path: Seq<u8>,
        request_path: Seq<u8>,
    },
}

impl View for RouteDecision {
    type V = DecisionModel;

    open spec fn view(&self) -> DecisionModel {
        match self {
            RouteDecision::ErrorPage { code, message, error_path } => DecisionModel::ErrorPage {
                code: *code,
                message: message@,
                error_path: error_path@,
            },
            RouteDecision::Redirect { location } => DecisionModel::Redirect {
                location: location@,
            },
            RouteDecision::Upload { error_path } => DecisionModel::Upload {
                error_path: error_path@,
            },
            RouteDecision::Delete => DecisionModel::Delete,
            RouteDecision::Cgi { script_path, path_info } => DecisionModel::Cgi {
                script_path: script_path@,
                path_info: path_info@,
            },
            RouteDecision::ServeStatic {
                fs_path,
                default_file,
                autoindex,
                error_path,
                request_path,
            } => DecisionModel::ServeStatic {
                fs_path: fs_path@,
                default_file: match default_file {
                    Some(f) => Some(f@),
                    None => None,
                },
                autoindex: *autoindex,
                error_path: error_path@,
                request_path: request_path@,
            },
        }
    }
}

/// The route set and error-page directory in effect for a request:
/// the matching virtual host's when one matches, the global ones
/// otherwise.
pub open spec fn spec_selected(
    req: crate::http::request::ReqModel,
    c: crate::config::types::ConfigModel,
) -> (Seq<RouteModel>, Seq<u8>) {
    if c.vhosts.len() > 0 {
        match spec_find_vhost(req.headers, c.vhosts) {
            Some(v) => (c.vhosts[v].routes, c.vhosts[v].error_path),
            None => (c.routes, c.error_path),
        }
    } else {
        (c.routes, c.error_path)
    }
}

/// The static-file decision for a matched route.
pub open spec fn spec_static_decision(
    req: crate::http::request::ReqModel,
    route: RouteModel,
    error_path: Seq<u8>,
) -> DecisionModel {
    let fs = if route.path == seq!['/' as u8] {
        let req_path = spec_trim_slashes(req.path);
        if req_path.len() == 0 {
            match route.default_file {
                Some(df) => Some(spec_join_path(route.root, df)),
                None => Some(route.root),
            }
        } else {
            spec_sanitize_path(route.root, req_path)
        }
    } else {
        let after = spec_trim_slashes(spec_strip_prefix_or(req.path, route.path, Seq::empty()));
        if after.len() == 0 {
            Some(route.root)
        } else {
            spec_sanitize_path(route.root, after)
        }
    };
    match fs {
        None => DecisionModel::ErrorPage {
            code: 403,
            message: tokens::spec_status_forbidden(),
            error_path,
        },
        Some(p) => DecisionModel::ServeStatic {
            fs_path: p,
            default_file: route.default_file,
            autoindex: route.autoindex,
            error_path,
            request_path: req.path,
        },
    }
}

/// The decision for a request once a route has matched.
pub open spec fn spec_dispatch(
    req: crate::http::request::ReqModel,
    c: crate::config::types::ConfigModel,
    route: RouteModel,
    error_path: Seq<u8>,
) -> DecisionModel {
    if !spec_method_allowed(req.method, route.methods) {
        DecisionModel::ErrorPage {
            code: 405,
            message: tokens::spec_status_method_not_allowed(),
            error_path,
        }
    } else if route.redirect is Some {
        DecisionModel::Redirect { location: route.redirect->Some_0 }
    } else if spec_touches_upload(route.path) && util::spec_lower(req.method) == util::spec_lower(
        tokens::spec_post(),
    ) {
        if req.body.len() > c.client_body_size_limit {
            DecisionModel::ErrorPage {
                code: 413,
                message: tokens::spec_status_payload_too_large(),
                error_path,
            }
        } else {
            DecisionModel::Upload { error_path }
        }
    } else if spec_touches_upload(route.path) && util::spec_lower(req.method) == util::spec_lower(
        tokens::spec_delete(),
    ) {
        DecisionModel::Delete
    } else if route.cgi is Some {
        let after = spec_trim_slashes(spec_strip_prefix_or(req.path, route.path, req.path));
        if after.len() == 0 {
            DecisionModel::ErrorPage {
                code: 404,
                message: tokens::spec_status_not_found(),
                error_path,
            }
        } else {
            match spec_sanitize_path(route.root, after) {
                None => DecisionModel::ErrorPage {
                    code: 403,
                    message: tokens::spec_status_forbidden(),
                    error_path,
                },
                Some(sp) => DecisionModel::Cgi { script_path: sp, path_info: req.path },
            }
        }
    } else {
        spec_static_decision(req, route, error_path)
    }
}

/// What the router decides for a parsed request: the checks in order
/// — version, path safety, body size, virtual host, longest-prefix
/// route, method — then redirect, upload, delete, CGI or static
/// dispatch.
pub open spec fn spec_route_request(
    req: crate::http::request::ReqModel,
    c: crate::config::types::ConfigModel,
) -> DecisionModel {
    if req.version != tokens::spec_http11() {
        DecisionModel::ErrorPage {
            code: 400,
            message: tokens::spec_status_bad_request(),
            error_path: c.error_path,
        }
    } else if !spec_path_safe(req.path) {
        DecisionModel::ErrorPage {
            code: 403,
            message: tokens::spec_status_forbidden(),
            error_path: c.error_path,
        }
    } else if req.body.len() > c.client_body_size_limit {
        DecisionModel::ErrorPage {
            code: 413,
            message: tokens::spec_status_payload_too_large(),
            error_path: c.error_path,
        }
    } else {
        let sel = spec_selected(req, c);
        match spec_find_route(req.path, sel.0) {
            None => DecisionModel::ErrorPage {
                code: 404,
                message: tokens::spec_status_not_found(),
                error_path: sel.1,
            },
            Some(j) => spec_dispatch(req, c, sel.0[j], sel.1),
        }
    }
}

/// Fallback body of an error response: `<h1>code - message</h1>`.
pub open spec fn spec_error_body(code: u16, message: Seq<u8>) -> Seq<u8> {
    tokens::spec_h1_open() + util::spec_dec_digits(code as nat) + tokens::spec_sp_dash_sp()
        + message + tokens::spec_h1_close()
}

/// Builds the error response for a status: when the per-status error
/// page was read, its bytes are the body with `Content-Type:
/// text/html`; otherwise a minimal HTML body is synthesized.
pub fn error_response(code: u16, message: &[u8], page: Option<Vec<u8>>) -> (r: HttpResponse)
    ensures
        r.status_code == code,
        r.status_text@ == message@,
        match page {
            Some(content) => r.body@ == content@ && r.headers.deep_view() == seq![
                (tokens::spec_content_type(), tokens::spec_text_html()),
            ],
            None => r.body@ == spec_error_body(code, message@) && r.headers.deep_view()
                == Seq::<(Seq<u8>, Seq<u8>)>::empty(),
        },
{
    let mut response = HttpResponse::new(code, message);
    match page {
        Some(content) => {
            let ct = tokens::content_type();
            let html = tokens::text_html();
            response.set_header(ct.as_slice(), html.as_slice());
            proof {
                assert(response.headers.deep_view() =~~= seq![
                    (tokens::spec_content_type(), tokens::spec_text_html()),
                ]);
            }
            response.set_body_bytes(content);
        },
        None => {
            let mut body = tokens::h1_open();
            let digits = util::usize_to_dec(code as usize);
            body.extend_from_slice(digits.as_slice());
            let dash = tokens::sp_dash_sp();
            body.extend_from_slice(dash.as_slice());
            body.extend_from_slice(message);
            let close = tokens::h1_close();
            body.extend_from_slice(close.as_slice());
            assert(body@ =~= spec_error_body(code, message@));
            response.set_body_bytes(body);
        },
    }
    response
}

/// `302 Found` with the redirect target as `Location`.
pub fn redirect_response(location: &[u8]) -> (r: HttpResponse)
    ensures
        r.status_code == 302,
        r.status_text@ == tokens::spec_status_found(),
        r.headers.deep_view() == seq![(tokens::spec_location(), location@)],
        r.body@ == Seq::<u8>::empty(),
{
    let text = tokens::status_found();
    let mut resp = HttpResponse::new(302, text.as_slice());
    let loc = tokens::location();
    resp.set_header(loc.as_slice(), location);
    proof {
        assert(resp.headers.deep_view() =~~= seq![(tokens::spec_location(), location@)]);
    }
    resp
}

/// Routes a parsed request to a decision: an immediate error page or
/// redirect, or the upload, delete, CGI or static work to perform.
pub fn route_request(request: &HttpRequest, config: &ServerConfig) -> (r: RouteDecision)
    ensures
        r@ == spec_route_request(request@, config@),
{
    let http11 = tokens::http11();
    if !util::bytes_eq(request.version.as_slice(), http11.as_slice()) {
        return RouteDecision::ErrorPage {
            code: 400,
            message: tokens::status_bad_request(),
            error_path: vstd::slice::slice_to_vec(config.error_path.as_slice()),
        };
    }
    if !is_path_safe(request.path.as_slice()) {
        return RouteDecision::ErrorPage {
            code: 403,
            message: tokens::status_forbidden(),
            error_path: vstd::slice::slice_to_vec(config.error_path.as_slice()),
        };
    }
    if request.body.len() > config.client_body_size_limit {
        return RouteDecision::ErrorPage {
            code: 413,
            message: tokens::status_payload_too_large(),
            error_path: vstd::slice::slice_to_vec(config.error_path.as_slice()),
        };
    }
    let ghost sel = spec_selected(request@, config@);
    let (routes, error_path): (&Vec<RouteConfig>, &Vec<u8>) = if config.vhosts.len() > 0 {
        match find_vhost(request, config.vhosts.as_slice()) {
            Some(v) => (&v.routes, &v.error_path),
            None => (&config.routes, &config.error_path),
        }
    } else {
        (&config.routes, &config.error_path)
    };
    proof {
        assert(routes.deep_view() == sel.0);
        assert(error_path@ == sel.1);
    }
    let route = match find_route(request, routes.as_slice()) {
        Some(rt) => rt,
        None => {
            return RouteDecision::ErrorPage {
                code: 404,
                message: tokens::status_not_found(),
                error_path: vstd::slice::slice_to_vec(error_path.as_slice()),
            };
        },
    };
    let ghost sroute = sel.0[spec_find_route(request@.path, sel.0)->Some_0];
    proof {
        assert(route@ == sroute);
    }
    if !method_allowed(request.method.as_slice(), &route.methods) {
        return RouteDecision::ErrorPage {
            code: 405,
            message: tokens::status_method_not_allowed(),
            error_path: vstd::slice::slice_to_vec(error_path.as_slice()),
        };
    }
    if let Some(target) = &route.redirect {
        return RouteDecision::Redirect { location: vstd::slice::slice_to_vec(target.as_slice()) };
    }
    let slash_upload = tokens::slash_upload();
    let touches_upload = util::contains_seq(route.path.as_slice(), slash_upload.as_slice());
    let post = tokens::post();
    if touches_upload && util::eq_ignore_case(request.method.as_slice(), post.as_slice()) {
        if request.body.len() > config.client_body_size_limit {
            return RouteDecision::ErrorPage {
                code: 413,
                message: tokens::status_payload_too_large(),
                error_path: vstd::slice::slice_to_vec(error_path.as_slice()),
            };
        }
        return RouteDecision::Upload {
            error_path: vstd::slice::slice_to_vec(error_path.as_slice()),
        };
    }
    let delete_tok = tokens::delete();
    if touches_upload && util::eq_ignore_case(request.method.as_slice(), delete_tok.as_slice()) {
        return RouteDecision::Delete;
    }
    if route.cgi.is_some() {
        let stripped = if util::starts_with(request.path.as_slice(), route.path.as_slice()) {
            util::subvec(request.path.as_slice(), route.path.len(), request.path.len())
        } else {
            vstd::slice::slice_to_vec(request.path.as_slice())
        };
        proof {
            assert(stripped@ == spec_strip_prefix_or(request@.path, sroute.path, request@.path));
        }
        let after = trim_leading_slashes(stripped.as_slice());
        if after.len() == 0 {
            return RouteDecision::ErrorPage {
                code: 404,
                message: tokens::status_not_found(),
                error_path: vstd::slice::slice_to_vec(error_path.as_slice()),
            };
        }
        return match sanitize_path(route.root.as_slice(), after.as_slice()) {
            None => RouteDecision::ErrorPage {
                code: 403,
                message: tokens::status_forbidden(),
                error_path: vstd::slice::slice_to_vec(error_path.as_slice()),
            },
            Some(sp) => RouteDecision::Cgi {
                script_path: sp,
                path_info: vstd::slice::slice_to_vec(request.path.as_slice()),
            },
        };
    }
    let slash: Vec<u8> = vec!['/' as u8];
    assert(slash@ =~= seq!['/' as u8]);
    let fs_path: Option<Vec<u8>> = if util::bytes_eq(route.path.as_slice(), slash.as_slice()) {
        let req_path = trim_leading_slashes(request.path.as_slice());
        if req_path.len() == 0 {
            match &route.default_file {
                Some(df) => Some(join_path(route.root.as_slice(), df.as_slice())),
                None => Some(vstd::slice::slice_to_vec(route.root.as_slice())),
            }
        } else {
            sanitize_path(route.root.as_slice(), req_path.as_slice())
        }
    } else {
        let stripped = if util::starts_with(request.path.as_slice(), route.path.as_slice()) {
            util::subvec(request.path.as_slice(), route.path.len(), request.path.len())
        } else {
            Vec::new()
        };
        proof {
            assert(stripped@ == spec_strip_prefix_or(
                request@.path,
                sroute.path,
                Seq::<u8>::empty(),
            ));
        }
        let after = trim_leading_slashes(stripped.as_slice());
        if after.len() == 0 {
            Some(vstd::slice::slice_to_vec(route.root.as_slice()))
        } else {
            sanitize_path(route.root.as_slice(), after.as_slice())
        }
    };
    match fs_path {
        None => RouteDecision::ErrorPage {
            code: 403,
            message: tokens::status_forbidden(),
            error_path: vstd::slice::slice_to_vec(error_path.as_slice()),
        },
        Some(p) => {
            let default_file: Option<Vec<u8>> = match &route.default_file {
                Some(df) => Some(vstd::slice::slice_to_vec(df.as_slice())),
                None => None,
            };
            RouteDecision::ServeStatic {
                fs_path: p,
                default_file,
                autoindex: route.autoindex,
                error_path: vstd::slice::slice_to_vec(error_path.as_slice()),
                request_path: vstd::slice::slice_to_vec(request.path.as_slice()),
            }
        },
    }
}

/// Path sanitization law: a request whose decoded path holds `..`, a
/// NUL byte or `//` is answered `403 Forbidden` by the router, before
/// any filesystem work; only the HTTP-version check comes earlier.
pub proof fn lemma_unsafe_path_rejected(
    req: crate::http::request::ReqModel,
    c: crate::config::types::ConfigModel,
)
    requires
        req.version == tokens::spec_http11(),
        !spec_path_safe(req.path),
    ensures
        spec_route_request(req, c) == (DecisionModel::ErrorPage {
            code: 403,
            message: tokens::spec_status_forbidden(),
            error_path: c.error_path,
        }),
{
}

} // verus!
