//! The configuration-text parser: a line-oriented format with
//! top-level directives, `route <path> { ... }` blocks and
//! `vhost <name> { ... }` blocks; `#` starts a comment.  Malformed
//! lines are skipped and defaults fill the gaps.

use vstd::prelude::*;

use crate::config::types::{
    config_wf, route_wf, ConfigModel, RouteConfig, RouteModel, ServerConfig, VHost, VHostModel,
};
use crate::http::request::{find_from, header_lines, spec_find, spec_lines};
use crate::tokens;
use crate::util;
use vstd::string::StringSliceAdditionalSpecFns;

verus! {

/// Default body size limit: ten mebibytes.
pub const DEFAULT_BODY_LIMIT: usize = 10 * 1024 * 1024;

/// Parser state after some lines: the accumulated configuration, the
/// block context, and the route and virtual host under construction.
#[verifier::ext_equal]
pub ghost struct ParseModel {
    pub listen_addresses: Seq<Seq<u8>>,
    pub client_body_size_limit: usize,
    pub error_path: Seq<u8>,
    pub routes: Seq<RouteModel>,
    pub vhosts: Seq<VHostModel>,
    pub in_route: bool,
    pub in_vhost: bool,
    pub cur_vhost: Option<VHostModel>,
    pub cur_path: Seq<u8>,
    pub cur_methods: Seq<Seq<u8>>,
    pub cur_root: Seq<u8>,
    pub cur_default: Seq<u8>,
    pub cur_autoindex: bool,
    pub cur_cgi: Option<Seq<u8>>,
    pub cur_redirect: Option<Seq<u8>>,
}

struct ParserState {
    listen_addresses: Vec<Vec<u8>>,
    client_body_size_limit: usize,
    error_path: Vec<u8>,
    routes: Vec<RouteConfig>,
    vhosts: Vec<VHost>,
    in_route: bool,
    in_vhost: bool,
    cur_vhost: Option<VHost>,
    cur_path: Vec<u8>,
    cur_methods: Vec<Vec<u8>>,
    cur_root: Vec<u8>,
    cur_default: Vec<u8>,
    cur_autoindex: bool,
    cur_cgi: Option<Vec<u8>>,
    cur_redirect: Option<Vec<u8>>,
}

impl View for ParserState {
    type V = ParseModel;

    closed spec fn view(&self) -> ParseModel {
        ParseModel {
            listen_addresses: self.listen_addresses.deep_view(),
            client_body_size_limit: self.client_body_size_limit,
            error_path: self.error_path@,
            routes: self.routes.deep_view(),
            vhosts: self.vhosts.deep_view(),
            in_route: self.in_route,
            in_vhost: self.in_vhost,
            cur_vhost: match &self.cur_vhost {
                Some(v) => Some(v@),
                None => None,
            },
            cur_path: self.cur_path@,
            cur_methods: self.cur_methods.deep_view(),
            cur_root: self.cur_root@,
            cur_default: self.cur_default@,
            cur_autoindex: self.cur_autoindex,
            cur_cgi: match &self.cur_cgi {
                Some(v) => Some(v@),
                None => None,
            },
            cur_redirect: match &self.cur_redirect {
                Some(v) => Some(v@),
                None => None,
            },
        }
    }
}

/// The state before any line.
pub open spec fn spec_initial_state() -> ParseModel {
    ParseModel {
        listen_addresses: Seq::empty(),
        client_body_size_limit: DEFAULT_BODY_LIMIT,
        error_path: Seq::empty(),
        routes: Seq::empty(),
        vhosts: Seq::empty(),
        in_route: false,
        in_vhost: false,
        cur_vhost: None,
        cur_path: Seq::empty(),
        cur_methods: Seq::empty(),
        cur_root: Seq::empty(),
        cur_default: Seq::empty(),
        cur_autoindex: false,
        cur_cgi: None,
        cur_redirect: None,
    }
}

/// A line with its comment stripped: trimmed, cut at the first `#`,
/// trimmed again.
pub open spec fn spec_strip_comment(line: Seq<u8>) -> Seq<u8> {
    let t = util::spec_trim(line);
    match spec_find(t, seq!['#' as u8], 0) {
        Some(p) => util::spec_trim(t.take(p)),
        None => t,
    }
}

/// The text after the first `=`, up to a second `=` if any.
pub open spec fn spec_value_of(line: Seq<u8>) -> Option<Seq<u8>> {
    let ps = util::spec_split(line, '=' as u8);
    if ps.len() >= 2 {
        Some(ps[1])
    } else {
        None
    }
}

/// Listening addresses accumulated from a comma list: trimmed,
/// non-empty, holding a colon, not already present.
pub open spec fn spec_add_addrs(acc: Seq<Seq<u8>>, parts: Seq<Seq<u8>>) -> Seq<Seq<u8>>
    decreases parts.len(),
{
    if parts.len() == 0 {
        acc
    } else {
        let t = util::spec_trim(parts[0]);
        let next = if t.len() > 0 && t.contains(':' as u8) && !acc.contains(t) {
            acc.push(t)
        } else {
            acc
        };
        spec_add_addrs(next, parts.skip(1))
    }
}

/// The method list a `methods =` value denotes: comma-separated,
/// trimmed, upper-cased, empties dropped.
pub open spec fn spec_methods_of(value: Seq<u8>) -> Seq<Seq<u8>> {
    util::spec_nonempty_parts(
        util::spec_split(value, ',' as u8).map_values(
            |m: Seq<u8>| util::spec_upper(util::spec_trim(m)),
        ),
    )
}

/// A truthy `autoindex` value: `on`, `true` or `yes`, trimmed, in any
/// case.
pub open spec fn spec_truthy(value: Seq<u8>) -> bool {
    let v = util::spec_lower(util::spec_trim(value));
    v == tokens::spec_on_word() || v == tokens::spec_true_word() || v == tokens::spec_yes_word()
}

/// The route the current block describes, with its defaults: `GET`
/// when no methods were given, `index.html` when no default file was.
pub open spec fn spec_built_route(st: ParseModel) -> RouteModel {
    RouteModel {
        path: st.cur_path,
        methods: if st.cur_methods.len() == 0 {
            seq![tokens::spec_get()]
        } else {
            st.cur_methods
        },
        root: st.cur_root,
        default_file: if st.cur_default.len() == 0 {
            Some(tokens::spec_index_html())
        } else {
            Some(st.cur_default)
        },
        autoindex: st.cur_autoindex,
        cgi: st.cur_cgi,
        redirect: st.cur_redirect,
    }
}

/// A route block is saved only when its path begins with `/` and it
/// has a directory to serve or a redirect.
pub open spec fn spec_route_saved(st: ParseModel) -> bool {
    &&& st.cur_path.len() > 0
    &&& st.cur_path[0] == '/' as u8
    &&& (st.cur_root.len() > 0 || st.cur_redirect is Some)
}

/// The state with the route under construction cleared.
pub open spec fn spec_clear_route(st: ParseModel) -> ParseModel {
    ParseModel {
        cur_path: Seq::empty(),
        cur_methods: Seq::empty(),
        cur_root: Seq::empty(),
        cur_default: Seq::empty(),
        cur_autoindex: false,
        cur_cgi: None,
        cur_redirect: None,
        in_route: false,
        ..st
    }
}

/// Closing a route block: save the route into the open virtual host
/// or the global list, then clear.
pub open spec fn spec_close_route(st: ParseModel) -> ParseModel {
    let st1 = if spec_route_saved(st) {
        let r = spec_built_route(st);
        match st.cur_vhost {
            Some(v) => ParseModel {
                cur_vhost: Some(VHostModel { routes: v.routes.push(r), ..v }),
                ..st
            },
            None => ParseModel { routes: st.routes.push(r), ..st },
        }
    } else {
        st
    };
    spec_clear_route(st1)
}

/// The state one configuration line leads to.
pub open spec fn spec_config_line(st: ParseModel, raw: Seq<u8>) -> ParseModel {
    let line = spec_strip_comment(raw);
    if line.len() == 0 {
        st
    } else if line == seq!['}' as u8] && st.in_vhost && !st.in_route {
        let st1 = match st.cur_vhost {
            Some(v) => ParseModel { vhosts: st.vhosts.push(v), cur_vhost: None, ..st },
            None => st,
        };
        ParseModel { in_vhost: false, ..st1 }
    } else if !st.in_route {
        if tokens::spec_vhost_word().is_prefix_of(line) && line.last() == '{' as u8 {
            let st1 = match st.cur_vhost {
                Some(v) => ParseModel { vhosts: st.vhosts.push(v), cur_vhost: None, ..st },
                None => st,
            };
            let toks = util::spec_ws_tokens(line);
            if toks.len() >= 3 && toks[2] == seq!['{' as u8] {
                ParseModel {
                    cur_vhost: Some(
                        VHostModel {
                            name: toks[1],
                            error_path: st1.error_path,
                            routes: Seq::empty(),
                        },
                    ),
                    in_vhost: true,
                    ..st1
                }
            } else {
                st1
            }
        } else if tokens::spec_route_word().is_prefix_of(line) && line.last() == '{' as u8 {
            let toks = util::spec_ws_tokens(line);
            if toks.len() >= 3 && toks[2] == seq!['{' as u8] {
                ParseModel { cur_path: toks[1], in_route: true, ..st }
            } else {
                st
            }
        } else if tokens::spec_listen_word().is_prefix_of(line) {
            match spec_value_of(line) {
                Some(v) => {
                    let t = util::spec_trim(v);
                    if t.len() == 0 {
                        st
                    } else {
                        ParseModel {
                            listen_addresses: spec_add_addrs(
                                st.listen_addresses,
                                util::spec_split(t, ',' as u8),
                            ),
                            ..st
                        }
                    }
                },
                None => st,
            }
        } else if tokens::spec_client_body_size_limit_word().is_prefix_of(line)
            || tokens::spec_client_max_body_size_word().is_prefix_of(line) {
            match spec_value_of(line) {
                Some(v) => {
                    let t = util::spec_trim(v);
                    if t.len() > 0 && util::all_digits(t) && util::dec_value(t) <= usize::MAX {
                        ParseModel { client_body_size_limit: util::dec_value(t) as usize, ..st }
                    } else {
                        st
                    }
                },
                None => st,
            }
        } else if tokens::spec_error_path_word().is_prefix_of(line)
            || tokens::spec_error_dir_word().is_prefix_of(line) {
            match spec_value_of(line) {
                Some(v) => {
                    let t = util::spec_trim(v);
                    if t.len() > 0 {
                        ParseModel {
                            error_path: t,
                            cur_vhost: match st.cur_vhost {
                                Some(vh) => Some(VHostModel { error_path: t, ..vh }),
                                None => None,
                            },
                            ..st
                        }
                    } else {
                        st
                    }
                },
                None => st,
            }
        } else {
            st
        }
    } else {
        if line == seq!['}' as u8] {
            spec_close_route(st)
        } else if tokens::spec_methods_word().is_prefix_of(line) {
            match spec_value_of(line) {
                Some(v) => {
                    let ms = spec_methods_of(v);
                    if ms.len() == 0 {
                        st
                    } else {
                        ParseModel { cur_methods: ms, ..st }
                    }
                },
                None => st,
            }
        } else if tokens::spec_default_file_word().is_prefix_of(line)
            || tokens::spec_default_word().is_prefix_of(line) {
            match spec_value_of(line) {
                Some(v) => {
                    let t = util::spec_trim(v);
                    if t.len() > 0 {
                        ParseModel { cur_default: t, ..st }
                    } else {
                        st
                    }
                },
                None => st,
            }
        } else if tokens::spec_root_word().is_prefix_of(line) {
            match spec_value_of(line) {
                Some(v) => {
                    let t = util::spec_trim(v);
                    if t.len() > 0 {
                        ParseModel { cur_root: t, ..st }
                    } else {
                        st
                    }
                },
                None => st,
            }
        } else if tokens::spec_autoindex_word().is_prefix_of(line) {
            match spec_value_of(line) {
                Some(v) => ParseModel { cur_autoindex: spec_truthy(v), ..st },
                None => st,
            }
        } else if tokens::spec_cgi_word().is_prefix_of(line) {
            match spec_value_of(line) {
                Some(v) => {
                    let t = util::spec_trim(v);
                    if t.len() > 0 {
                        ParseModel { cur_cgi: Some(t), ..st }
                    } else {
                        st
                    }
                },
                None => st,
            }
        } else if tokens::spec_redirect_word().is_prefix_of(line) {
            match spec_value_of(line) {
                Some(v) => ParseModel { cur_redirect: Some(util::spec_trim(v)), ..st },
                None => st,
            }
        } else {
            st
        }
    }
}

/// The state the whole line sequence leads to.
pub open spec fn spec_config_fold(st: ParseModel, lines: Seq<Seq<u8>>) -> ParseModel
    decreases lines.len(),
{
    if lines.len() == 0 {
        st
    } else {
        spec_config_fold(spec_config_line(st, lines[0]), lines.skip(1))
    }
}

/// The configuration a final parser state denotes: the last open
/// virtual host is saved, and a default listening endpoint fills an
/// empty list.
pub open spec fn spec_finalize(st: ParseModel) -> ConfigModel {
    let vhosts = match st.cur_vhost {
        Some(v) => st.vhosts.push(v),
        None => st.vhosts,
    };
    let listen = if st.listen_addresses.len() == 0 {
        seq![tokens::spec_default_listen()]
    } else {
        st.listen_addresses
    };
    ConfigModel {
        listen_addresses: listen,
        client_body_size_limit: st.client_body_size_limit,
        routes: st.routes,
        error_path: st.error_path,
        vhosts,
    }
}

/// The configuration a text denotes.
pub open spec fn spec_parse_config(text: Seq<u8>) -> ConfigModel {
    spec_finalize(spec_config_fold(spec_initial_state(), spec_lines(text)))
}

/// Every route saved so far satisfies the route invariant.
pub open spec fn state_wf(st: ParseModel) -> bool {
    &&& forall|i: int| 0 <= i < st.routes.len() ==> route_wf(#[trigger] st.routes[i])
    &&& forall|v: int, i: int|
        0 <= v < st.vhosts.len() && 0 <= i < st.vhosts[v].routes.len() ==> route_wf(
            #[trigger] st.vhosts[v].routes[i],
        )
    &&& (st.cur_vhost matches Some(vh) ==> forall|i: int|
        0 <= i < vh.routes.len() ==> route_wf(#[trigger] vh.routes[i]))
}

proof fn lemma_line_preserves_wf(st: ParseModel, raw: Seq<u8>)
    requires
        state_wf(st),
    ensures
        state_wf(spec_config_line(st, raw)),
{
    let post = spec_config_line(st, raw);
    let line = spec_strip_comment(raw);
    if line.len() == 0 {
    } else if line == seq!['}' as u8] && st.in_vhost && !st.in_route {
        if st.cur_vhost is Some {
            let v = st.cur_vhost->Some_0;
            assert(forall|i: int| 0 <= i < v.routes.len() ==> route_wf(#[trigger] v.routes[i]));
            assert(post.vhosts =~~= st.vhosts.push(v));
        }
    } else if !st.in_route {
        if tokens::spec_vhost_word().is_prefix_of(line) && line.last() == '{' as u8 {
            if st.cur_vhost is Some {
                let v = st.cur_vhost->Some_0;
                assert(forall|i: int|
                    0 <= i < v.routes.len() ==> route_wf(#[trigger] v.routes[i]));
            }
        }
    } else {
        if line == seq!['}' as u8] {
            if spec_route_saved(st) {
                let r = spec_built_route(st);
                assert(route_wf(r));
            }
        }
    }
}

proof fn lemma_fold_preserves_wf(st: ParseModel, lines: Seq<Seq<u8>>)
    requires
        state_wf(st),
    ensures
        state_wf(spec_config_fold(st, lines)),
    decreases lines.len(),
{
    if lines.len() > 0 {
        lemma_line_preserves_wf(st, lines[0]);
        lemma_fold_preserves_wf(spec_config_line(st, lines[0]), lines.skip(1));
    }
}

/// The text after the first `=`, copied out.
fn value_of(line: &[u8]) -> (r: Option<Vec<u8>>)
    ensures
        r is Some <==> spec_value_of(line@) is Some,
        r matches Some(v) ==> Some(v@) == spec_value_of(line@),
{
    let ps = util::split_byte(line, '=' as u8);
    if ps.len() >= 2 {
        assert(ps.deep_view()[1] == ps@[1]@);
        Some(vstd::slice::slice_to_vec(ps[1].as_slice()))
    } else {
        None
    }
}

/// Does this list of byte strings hold the given one?
fn contains_bytes(items: &Vec<Vec<u8>>, item: &[u8]) -> (r: bool)
    ensures
        r == items.deep_view().contains(item@),
{
    let ghost dv = items.deep_view();
    let mut i: usize = 0;
    while i < items.len()
        invariant
            0 <= i <= items@.len(),
            dv == items.deep_view(),
            dv.len() == items@.len(),
            forall|j: int| 0 <= j < i ==> dv[j] != item@,
        decreases items.len() - i,
    {
        assert(dv[i as int] == items@[i as int]@);
        if util::bytes_eq(items[i].as_slice(), item) {
            assert(dv.contains(item@));
            return true;
        }
        i = i + 1;
    }
    assert(!dv.contains(item@));
    false
}

/// Adds the addresses of a comma list, deduplicated.
fn add_addrs(acc: &mut Vec<Vec<u8>>, value: &[u8])
    ensures
        final(acc).deep_view() == spec_add_addrs(
            old(acc).deep_view(),
            util::spec_split(value@, ',' as u8),
        ),
{
    let parts = util::split_byte(value, ',' as u8);
    let ghost all = parts.deep_view();
    let mut k: usize = 0;
    proof {
        assert(all.skip(0) =~~= all);
    }
    while k < parts.len()
        invariant
            0 <= k <= parts@.len(),
            all == parts.deep_view(),
            all.len() == parts@.len(),
            spec_add_addrs(old(acc).deep_view(), all) == spec_add_addrs(
                acc.deep_view(),
                all.skip(k as int),
            ),
        decreases parts.len() - k,
    {
        let ghost rest = all.skip(k as int);
        proof {
            assert(rest[0] == all[k as int]);
            assert(all[k as int] == parts@[k as int]@);
            assert(rest.skip(1) =~~= all.skip(k as int + 1));
        }
        let t = util::trim(parts[k].as_slice());
        if t.len() > 0 && util::contains_byte(t.as_slice(), ':' as u8) && !contains_bytes(
            acc,
            t.as_slice(),
        ) {
            let ghost pre = acc.deep_view();
            acc.push(t);
            proof {
                assert(acc.deep_view() =~~= pre.push(util::spec_trim(rest[0])));
            }
        }
        k = k + 1;
    }
    proof {
        assert(all.skip(k as int) =~~= Seq::<Seq<u8>>::empty());
    }
}

/// The method list of a `methods =` value.
fn methods_of(value: &[u8]) -> (r: Vec<Vec<u8>>)
    ensures
        r.deep_view() == spec_methods_of(value@),
{
    let parts = util::split_byte(value, ',' as u8);
    let ghost all = parts.deep_view();
    let mut mapped: Vec<Vec<u8>> = Vec::new();
    let mut k: usize = 0;
    while k < parts.len()
        invariant
            0 <= k <= parts@.len(),
            all == parts.deep_view(),
            all.len() == parts@.len(),
            mapped@.len() == k,
            forall|j: int|
                0 <= j < k ==> mapped.deep_view()[j] == util::spec_upper(
                    util::spec_trim(#[trigger] all[j]),
                ),
        decreases parts.len() - k,
    {
        assert(all[k as int] == parts@[k as int]@);
        let ghost pre = mapped.deep_view();
        let t = util::trim(parts[k].as_slice());
        let u = util::to_upper(t.as_slice());
        mapped.push(u);
        proof {
            assert(mapped.deep_view() =~~= pre.push(
                util::spec_upper(util::spec_trim(all[k as int])),
            ));
        }
        k = k + 1;
    }
    let ghost mdv = mapped.deep_view();
    proof {
        assert(mdv =~~= all.map_values(|m: Seq<u8>| util::spec_upper(util::spec_trim(m))));
    }
    let mut out: Vec<Vec<u8>> = Vec::new();
    let mut i: usize = 0;
    proof {
        assert(mdv.skip(0) =~~= mdv);
        assert(out.deep_view() =~~= Seq::<Seq<u8>>::empty());
    }
    while i < mapped.len()
        invariant
            0 <= i <= mapped@.len(),
            mdv == mapped.deep_view(),
            mdv.len() == mapped@.len(),
            util::spec_nonempty_parts(mdv) == out.deep_view() + util::spec_nonempty_parts(
                mdv.skip(i as int),
            ),
        decreases mapped.len() - i,
    {
        let ghost rest = mdv.skip(i as int);
        proof {
            assert(rest[0] == mdv[i as int]);
            assert(mdv[i as int] == mapped@[i as int]@);
            assert(rest.skip(1) =~~= mdv.skip(i as int + 1));
        }
        if mapped[i].len() > 0 {
            let ghost pre = out.deep_view();
            let item = vstd::slice::slice_to_vec(mapped[i].as_slice());
            out.push(item);
            proof {
                assert(out.deep_view() =~~= pre.push(rest[0]));
                assert(out.deep_view() + util::spec_nonempty_parts(mdv.skip(i as int + 1)) =~~= pre
                    + util::spec_nonempty_parts(rest));
            }
        }
        i = i + 1;
    }
    proof {
        assert(mdv.skip(i as int) =~~= Seq::<Seq<u8>>::empty());
        assert(out.deep_view() =~~= util::spec_nonempty_parts(mdv));
    }
    out
}

/// Is this a truthy `autoindex` value?
fn truthy(value: &[u8]) -> (r: bool)
    ensures
        r == spec_truthy(value@),
{
    let t = util::trim(value);
    let v = util::to_lower(t.as_slice());
    let on = tokens::on_word();
    let tr = tokens::true_word();
    let yes = tokens::yes_word();
    util::bytes_eq(v.as_slice(), on.as_slice()) || util::bytes_eq(v.as_slice(), tr.as_slice())
        || util::bytes_eq(v.as_slice(), yes.as_slice())
}

/// Applies one configuration line to the parser state.
#[verifier::rlimit(50)]
fn process_line(st: &mut ParserState, raw: &[u8])
    ensures
        final(st)@ == spec_config_line(old(st)@, raw@),
{
    let ghost pre = old(st)@;
    let t1 = util::trim(raw);
    let hash: Vec<u8> = vec!['#' as u8];
    assert(hash@ =~= seq!['#' as u8]);
    let line: Vec<u8> = match find_from(t1.as_slice(), hash.as_slice(), 0) {
        Some(p) => {
            let cut = vstd::slice::slice_subrange(t1.as_slice(), 0, p);
            assert(cut@ =~= util::spec_trim(raw@).take(p as int));
            util::trim(cut)
        },
        None => t1,
    };
    proof {
        assert(line@ == spec_strip_comment(raw@));
    }
    if line.len() == 0 {
        assert(st@ =~~= spec_config_line(pre, raw@));
        return ;
    }
    let closing: Vec<u8> = vec!['}' as u8];
    assert(closing@ =~= seq!['}' as u8]);
    if util::bytes_eq(line.as_slice(), closing.as_slice()) && st.in_vhost && !st.in_route {
        match st.cur_vhost.take() {
            Some(v) => {
                let ghost vdv = st.vhosts.deep_view();
                let ghost vm = v@;
                st.vhosts.push(v);
                proof {
                    assert(st.vhosts.deep_view() =~~= vdv.push(vm));
                }
            },
            None => {},
        }
        st.in_vhost = false;
        assert(st@ =~~= spec_config_line(pre, raw@));
        return ;
    }
    let brace: Vec<u8> = vec!['{' as u8];
    assert(brace@ =~= seq!['{' as u8]);
    if !st.in_route {
        let vhost_word = tokens::vhost_word();
        let route_word = tokens::route_word();
        if util::starts_with(line.as_slice(), vhost_word.as_slice()) && line[line.len() - 1]
            == '{' as u8 {
            match st.cur_vhost.take() {
                Some(v) => {
                    let ghost vdv = st.vhosts.deep_view();
                    let ghost vm = v@;
                    st.vhosts.push(v);
                    proof {
                        assert(st.vhosts.deep_view() =~~= vdv.push(vm));
                    }
                },
                None => {},
            }
            let toks = util::ws_tokens(line.as_slice());
            if toks.len() >= 3 {
                assert(toks.deep_view()[1] == toks@[1]@);
                assert(toks.deep_view()[2] == toks@[2]@);
                if util::bytes_eq(toks[2].as_slice(), brace.as_slice()) {
                    let name = vstd::slice::slice_to_vec(toks[1].as_slice());
                    let error_path = vstd::slice::slice_to_vec(st.error_path.as_slice());
                    st.cur_vhost = Some(VHost { name, error_path, routes: Vec::new() });
                    st.in_vhost = true;
                    proof {
                        let vh = st.cur_vhost->Some_0;
                        assert(vh@.routes =~~= Seq::<RouteModel>::empty());
                    }
                }
            }
            assert(st@ =~~= spec_config_line(pre, raw@));
            return ;
        }
        if util::starts_with(line.as_slice(), route_word.as_slice()) && line[line.len() - 1]
            == '{' as u8 {
            let toks = util::ws_tokens(line.as_slice());
            if toks.len() >= 3 {
                assert(toks.deep_view()[1] == toks@[1]@);
                assert(toks.deep_view()[2] == toks@[2]@);
                if util::bytes_eq(toks[2].as_slice(), brace.as_slice()) {
                    st.cur_path = vstd::slice::slice_to_vec(toks[1].as_slice());
                    st.in_route = true;
                }
            }
            assert(st@ =~~= spec_config_line(pre, raw@));
            return ;
        }
        let listen_word = tokens::listen_word();
        if util::starts_with(line.as_slice(), listen_word.as_slice()) {
            match value_of(line.as_slice()) {
                Some(v) => {
                    let t = util::trim(v.as_slice());
                    if t.len() > 0 {
                        add_addrs(&mut st.listen_addresses, t.as_slice());
                    }
                },
                None => {},
            }
            assert(st@ =~~= spec_config_line(pre, raw@));
            return ;
        }
        let limit_word = tokens::client_body_size_limit_word();
        let limit_alias = tokens::client_max_body_size_word();
        if util::starts_with(line.as_slice(), limit_word.as_slice()) || util::starts_with(
            line.as_slice(),
            limit_alias.as_slice(),
        ) {
            match value_of(line.as_slice()) {
                Some(v) => {
                    let t = util::trim(v.as_slice());
                    match util::parse_dec_usize(t.as_slice()) {
                        Some(size) => {
                            st.client_body_size_limit = size;
                        },
                        None => {},
                    }
                },
                None => {},
            }
            assert(st@ =~~= spec_config_line(pre, raw@));
            return ;
        }
        let ep_word = tokens::error_path_word();
        let ep_alias = tokens::error_dir_word();
        if util::starts_with(line.as_slice(), ep_word.as_slice()) || util::starts_with(
            line.as_slice(),
            ep_alias.as_slice(),
        ) {
            match value_of(line.as_slice()) {
                Some(v) => {
                    let t = util::trim(v.as_slice());
                    if t.len() > 0 {
                        st.error_path = vstd::slice::slice_to_vec(t.as_slice());
                        match &mut st.cur_vhost {
                            Some(vh) => {
                                vh.error_path = t;
                            },
                            None => {},
                        }
                    }
                },
                None => {},
            }
            assert(st@ =~~= spec_config_line(pre, raw@));
            return ;
        }
        assert(st@ =~~= spec_config_line(pre, raw@));
        return ;
    }
    if util::bytes_eq(line.as_slice(), closing.as_slice()) {
        let saved = st.cur_path.len() > 0 && st.cur_path[0] == '/' as u8 && (st.cur_root.len() > 0
            || st.cur_redirect.is_some());
        let mut path: Vec<u8> = Vec::new();
        core::mem::swap(&mut path, &mut st.cur_path);
        let mut methods: Vec<Vec<u8>> = Vec::new();
        core::mem::swap(&mut methods, &mut st.cur_methods);
        let mut root: Vec<u8> = Vec::new();
        core::mem::swap(&mut root, &mut st.cur_root);
        let mut default: Vec<u8> = Vec::new();
        core::mem::swap(&mut default, &mut st.cur_default);
        let autoindex = st.cur_autoindex;
        st.cur_autoindex = false;
        let cgi = st.cur_cgi.take();
        let redirect = st.cur_redirect.take();
        st.in_route = false;
        if saved {
            let methods_final: Vec<Vec<u8>> = if methods.len() == 0 {
                let m: Vec<Vec<u8>> = vec![tokens::get()];
                proof {
                    assert(m.deep_view() =~~= seq![tokens::spec_get()]);
                }
                m
            } else {
                methods
            };
            let default_final: Option<Vec<u8>> = if default.len() == 0 {
                Some(tokens::index_html())
            } else {
                Some(default)
            };
            let route = RouteConfig {
                path,
                methods: methods_final,
                root,
                default_file: default_final,
                autoindex,
                cgi,
                redirect,
            };
            proof {
                assert(route@ =~~= spec_built_route(pre));
            }
            match &mut st.cur_vhost {
                Some(vh) => {
                    let ghost rdv = vh.routes.deep_view();
                    let ghost rm = route@;
                    vh.routes.push(route);
                    proof {
                        assert(vh.routes.deep_view() =~~= rdv.push(rm));
                    }
                },
                None => {
                    let ghost rdv = st.routes.deep_view();
                    let ghost rm = route@;
                    st.routes.push(route);
                    proof {
                        assert(st.routes.deep_view() =~~= rdv.push(rm));
                    }
                },
            }
        }
        assert(st@ =~~= spec_config_line(pre, raw@));
        return ;
    }
    let methods_word = tokens::methods_word();
    if util::starts_with(line.as_slice(), methods_word.as_slice()) {
        match value_of(line.as_slice()) {
            Some(v) => {
                let ms = methods_of(v.as_slice());
                if ms.len() > 0 {
                    st.cur_methods = ms;
                }
            },
            None => {},
        }
        assert(st@ =~~= spec_config_line(pre, raw@));
        return ;
    }
    let default_file_word = tokens::default_file_word();
    let default_word = tokens::default_word();
    if util::starts_with(line.as_slice(), default_file_word.as_slice()) || util::starts_with(
        line.as_slice(),
        default_word.as_slice(),
    ) {
        match value_of(line.as_slice()) {
            Some(v) => {
                let t = util::trim(v.as_slice());
                if t.len() > 0 {
                    st.cur_default = t;
                }
            },
            None => {},
        }
        assert(st@ =~~= spec_config_line(pre, raw@));
        return ;
    }
    let root_word = tokens::root_word();
    if util::starts_with(line.as_slice(), root_word.as_slice()) {
        match value_of(line.as_slice()) {
            Some(v) => {
                let t = util::trim(v.as_slice());
                if t.len() > 0 {
                    st.cur_root = t;
                }
            },
            None => {},
        }
        assert(st@ =~~= spec_config_line(pre, raw@));
        return ;
    }
    let autoindex_word = tokens::autoindex_word();
    if util::starts_with(line.as_slice(), autoindex_word.as_slice()) {
        match value_of(line.as_slice()) {
            Some(v) => {
                st.cur_autoindex = truthy(v.as_slice());
            },
            None => {},
        }
        assert(st@ =~~= spec_config_line(pre, raw@));
        return ;
    }
    let cgi_word = tokens::cgi_word();
    if util::starts_with(line.as_slice(), cgi_word.as_slice()) {
        match value_of(line.as_slice()) {
            Some(v) => {
                let t = util::trim(v.as_slice());
                if t.len() > 0 {
                    st.cur_cgi = Some(t);
                }
            },
            None => {},
        }
        assert(st@ =~~= spec_config_line(pre, raw@));
        return ;
    }
    let redirect_word = tokens::redirect_word();
    if util::starts_with(line.as_slice(), redirect_word.as_slice()) {
        match value_of(line.as_slice()) {
            Some(v) => {
                st.cur_redirect = Some(util::trim(v.as_slice()));
            },
            None => {},
        }
        assert(st@ =~~= spec_config_line(pre, raw@));
        return ;
    }
    assert(st@ =~~= spec_config_line(pre, raw@));
}

/// Parses a configuration text.  A malformed line changes nothing:
/// the parser skips it and carries on.
pub fn parse_config_string(content: &str) -> (r: ServerConfig)
    ensures
        r@ == spec_parse_config(content.spec_bytes()),
        config_wf(r@),
{
    let bytes = content.as_bytes();
    let lines = header_lines(bytes);
    let ghost all = lines.deep_view();
    let mut st = ParserState {
        listen_addresses: Vec::new(),
        client_body_size_limit: DEFAULT_BODY_LIMIT,
        error_path: Vec::new(),
        routes: Vec::new(),
        vhosts: Vec::new(),
        in_route: false,
        in_vhost: false,
        cur_vhost: None,
        cur_path: Vec::new(),
        cur_methods: Vec::new(),
        cur_root: Vec::new(),
        cur_default: Vec::new(),
        cur_autoindex: false,
        cur_cgi: None,
        cur_redirect: None,
    };
    proof {
        assert(st@ =~~= spec_initial_state());
        assert(all.skip(0) =~~= all);
    }
    let mut k: usize = 0;
    while k < lines.len()
        invariant
            0 <= k <= lines@.len(),
            all == lines.deep_view(),
            all.len() == lines@.len(),
            all == spec_lines(content.spec_bytes()),
            spec_config_fold(spec_initial_state(), all) == spec_config_fold(
                st@,
                all.skip(k as int),
            ),
        decreases lines.len() - k,
    {
        let ghost rest = all.skip(k as int);
        proof {
            assert(rest[0] == all[k as int]);
            assert(all[k as int] == lines@[k as int]@);
            assert(rest.skip(1) =~~= all.skip(k as int + 1));
        }
        process_line(&mut st, lines[k].as_slice());
        k = k + 1;
    }
    proof {
        assert(all.skip(k as int) =~~= Seq::<Seq<u8>>::empty());
        lemma_fold_preserves_wf(spec_initial_state(), all);
    }
    let ghost folded = st@;
    match st.cur_vhost.take() {
        Some(v) => {
            let ghost vdv = st.vhosts.deep_view();
            let ghost vm = v@;
            st.vhosts.push(v);
            proof {
                assert(st.vhosts.deep_view() =~~= vdv.push(vm));
            }
        },
        None => {},
    }
    if st.listen_addresses.len() == 0 {
        let ghost ldv = st.listen_addresses.deep_view();
        st.listen_addresses.push(tokens::default_listen());
        proof {
            assert(st.listen_addresses.deep_view() =~~= ldv.push(tokens::spec_default_listen()));
        }
    }
    let config = ServerConfig {
        listen_addresses: st.listen_addresses,
        client_body_size_limit: st.client_body_size_limit,
        routes: st.routes,
        error_path: st.error_path,
        vhosts: st.vhosts,
    };
    proof {
        assert(config@ =~~= spec_finalize(folded));
    }
    config
}

} // verus!
