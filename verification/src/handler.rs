use vstd::prelude::*;

use crate::authentication::{spec_pwc_matches, Authentication, AuthenticationSource};
use crate::config::Upstream;
use crate::message::{clone_headers, headers_equal, BufferedResponse, Method, ReqHead, Version};
use crate::rule::{spec_rule_matches, Rule};

verus! {

/// The first rule, in scan order, that matches the request.
pub fn select_rule(rules: &Vec<Rule>, req: &ReqHead) -> (r: Option<usize>)
    ensures
        match r {
            Some(i) => i < rules@.len() && spec_rule_matches(&rules@[i as int], req) && forall|
                j: int,
            | 0 <= j < i ==> !spec_rule_matches(&rules@[j], req),
            None => forall|j: int| 0 <= j < rules@.len() ==> !spec_rule_matches(&rules@[j], req),
        },
{
    let mut i: usize = 0;
    while i < rules.len()
        invariant
            i <= rules@.len(),
            forall|j: int| 0 <= j < i ==> !spec_rule_matches(&rules@[j], req),
        decreases rules@.len() - i,
    {
        if rules[i].matches(req) {
            return Some(i);
        }
        i += 1;
    }
    None
}

/// `404 Not Found` with an empty body, for a request no rule matches.
pub fn not_found() -> (r: BufferedResponse)
    ensures
        r.status == 404,
        r.version == Version::Http11,
        r.headers@.len() == 0,
        r.body@.len() == 0,
{
    BufferedResponse { status: 404, version: Version::Http11, headers: Vec::new(), body: Vec::new() }
}

/// `405 Method Not Allowed`: CONNECT tunneling is deliberately unsupported.
pub fn method_not_allowed() -> (r: BufferedResponse)
    ensures
        r.status == 405,
        r.version == Version::Http11,
        r.headers@.len() == 0,
        r.body@.len() == 0,
{
    BufferedResponse { status: 405, version: Version::Http11, headers: Vec::new(), body: Vec::new() }
}

/// Whether the method is CONNECT, which the proxy rejects.
pub fn is_connect(m: Method) -> (r: bool)
    ensures
        r == (m == Method::Connect),
{
    match m {
        Method::Connect => true,
        _ => false,
    }
}

/// The request path matches one of the authentication's exclude entries.
pub open spec fn spec_excluded(auth: &Authentication, path: Seq<char>) -> bool {
    exists|i: int|
        0 <= i < auth.exclude@.len() && spec_pwc_matches(&(#[trigger] auth.exclude@[i]), path)
}

/// Where an authentication sub-request goes.
pub struct AuthTarget {
    /// Index of the upstream the sub-request is sent to.
    pub upstream_key: usize,
    /// Path the sub-request asks for.
    pub path: String,
}

impl Upstream {
    /// Decides whether the request must first be authenticated: nothing to do
    /// when this upstream demands no authentication or the path matches an
    /// exclude entry; otherwise the upstream to ask — this one for a
    /// `Path` source, the resolved one for a named source — and the path to
    /// ask at.
    pub fn auth_plan(&self, path: &str) -> (r: Option<AuthTarget>)
        ensures
            match self.authentication {
                None => r is None,
                Some(a) => if spec_excluded(&a, path@) {
                    r is None
                } else {
                    r matches Some(t) && match a.source {
                        AuthenticationSource::Path(p) => t.upstream_key == self.key && t.path@
                            == p@,
                        AuthenticationSource::Upstream { path: p, key, .. } => t.upstream_key
                            == key && t.path@ == p@,
                    }
                },
            },
    {
        match &self.authentication {
            None => None,
            Some(auth) => {
                let mut i: usize = 0;
                while i < auth.exclude.len()
                    invariant
                        self.authentication == Some(*auth),
                        i <= auth.exclude@.len(),
                        forall|j: int|
                            0 <= j < i ==> !spec_pwc_matches(&(#[trigger] auth.exclude@[j]), path@),
                    decreases auth.exclude@.len() - i,
                {
                    if auth.exclude[i].matches(path) {
                        return None;
                    }
                    i += 1;
                }
                match &auth.source {
                    AuthenticationSource::Path(p) => Some(
                        AuthTarget { upstream_key: self.key, path: p.clone() },
                    ),
                    AuthenticationSource::Upstream { path: p, key, .. } => Some(
                        AuthTarget { upstream_key: *key, path: p.clone() },
                    ),
                }
            },
        }
    }
}

/// The stripped copy sent to the authentication endpoint: same method,
/// version and headers, the target replaced by the authentication path; its
/// body is sent empty.
pub fn build_auth_request(req: &ReqHead, auth_path: &str) -> (r: ReqHead)
    ensures
        r.method == req.method,
        r.version == req.version,
        r.uri@ == auth_path@,
        r.path@ == auth_path@,
        r.scheme@ == req.scheme@,
        headers_equal(r.headers@, req.headers@),
{
    ReqHead {
        method: req.method,
        uri: auth_path.to_owned(),
        path: auth_path.to_owned(),
        scheme: req.scheme.clone(),
        version: req.version,
        headers: clone_headers(&req.headers),
    }
}

/// Whether the authentication response lets the main request proceed: only a
/// 2xx status does; any other authentication response is returned to the
/// client as it stands.
pub fn auth_passes(status: u16) -> (r: bool)
    ensures
        r == (200 <= status < 300),
{
    200 <= status && status < 300
}

} // verus!
