//! Configuration values: listening endpoints, routes, virtual hosts.

use vstd::prelude::*;

verus! {

/// Configuration of one route.
#[derive(Debug, Clone)]
pub struct RouteConfig {
    /// URL prefix this route matches (always begins with `/`).
    pub path: Vec<u8>,
    /// Allowed method tokens, uppercase.
    pub methods: Vec<Vec<u8>>,
    /// Filesystem directory served by this route.
    pub root: Vec<u8>,
    /// File served when the resolved path is a directory.
    pub default_file: Option<Vec<u8>>,
    /// Serve a generated listing for a directory without a default file.
    pub autoindex: bool,
    /// When present, the route executes scripts under `root`.
    pub cgi: Option<Vec<u8>>,
    /// When present, matched requests are redirected here.
    pub redirect: Option<Vec<u8>>,
}

/// The mathematical value of a route.
#[verifier::ext_equal]
pub ghost struct RouteModel {
    pub path: Seq<u8>,
    pub methods: Seq<Seq<u8>>,
    pub root: Seq<u8>,
    pub default_file: Option<Seq<u8>>,
    pub autoindex: bool,
    pub cgi: Option<Seq<u8>>,
    pub redirect: Option<Seq<u8>>,
}

impl View for RouteConfig {
    type V = RouteModel;

    open spec fn view(&self) -> RouteModel {
        RouteModel {
            path: self.path@,
            methods: self.methods.deep_view(),
            root: self.root@,
            default_file: match self.default_file {
                Some(f) => Some(f@),
                None => None,
            },
            autoindex: self.autoindex,
            cgi: match self.cgi {
                Some(c) => Some(c@),
                None => None,
            },
            redirect: match self.redirect {
                Some(r) => Some(r@),
                None => None,
            },
        }
    }
}

impl DeepView for RouteConfig {
    type V = RouteModel;

    open spec fn deep_view(&self) -> RouteModel {
        self.view()
    }
}

/// A virtual host: a named route set with its own error-page directory.
#[derive(Debug, Clone)]
pub struct VHost {
    pub name: Vec<u8>,
    pub error_path: Vec<u8>,
    pub routes: Vec<RouteConfig>,
}

/// The mathematical value of a virtual host.
#[verifier::ext_equal]
pub ghost struct VHostModel {
    pub name: Seq<u8>,
    pub error_path: Seq<u8>,
    pub routes: Seq<RouteModel>,
}

impl View for VHost {
    type V = VHostModel;

    open spec fn view(&self) -> VHostModel {
        VHostModel {
            name: self.name@,
            error_path: self.error_path@,
            routes: self.routes.deep_view(),
        }
    }
}

impl DeepView for VHost {
    type V = VHostModel;

    open spec fn deep_view(&self) -> VHostModel {
        self.view()
    }
}

/// The whole server configuration, immutable after load.
#[derive(Debug)]
pub struct ServerConfig {
    pub listen_addresses: Vec<Vec<u8>>,
    pub client_body_size_limit: usize,
    pub routes: Vec<RouteConfig>,
    pub error_path: Vec<u8>,
    pub vhosts: Vec<VHost>,
}

/// The mathematical value of a configuration.
#[verifier::ext_equal]
pub ghost struct ConfigModel {
    pub listen_addresses: Seq<Seq<u8>>,
    pub client_body_size_limit: usize,
    pub routes: Seq<RouteModel>,
    pub error_path: Seq<u8>,
    pub vhosts: Seq<VHostModel>,
}

impl View for ServerConfig {
    type V = ConfigModel;

    open spec fn view(&self) -> ConfigModel {
        ConfigModel {
            listen_addresses: self.listen_addresses.deep_view(),
            client_body_size_limit: self.client_body_size_limit,
            routes: self.routes.deep_view(),
            error_path: self.error_path@,
            vhosts: self.vhosts.deep_view(),
        }
    }
}

/// A saved route has a slash-led path and either a directory to serve
/// or a redirect target.
pub open spec fn route_wf(r: RouteModel) -> bool {
    &&& r.path.len() > 0
    &&& r.path[0] == '/' as u8
    &&& (r.root.len() > 0 || r.redirect is Some)
}

/// Well-formedness of a loaded configuration: at least one listening
/// endpoint, and every route saved under the invariant above.
pub open spec fn config_wf(c: ConfigModel) -> bool {
    &&& c.listen_addresses.len() > 0
    &&& forall|i: int| 0 <= i < c.routes.len() ==> route_wf(#[trigger] c.routes[i])
    &&& forall|v: int, i: int|
        0 <= v < c.vhosts.len() && 0 <= i < c.vhosts[v].routes.len() ==> route_wf(
            #[trigger] c.vhosts[v].routes[i],
        )
}

} // verus!
