use vstd::prelude::*;
use vstd::string::{StrSliceExecFns, StringExecFns};

use crate::error::{Error, Kind};
use crate::ops::{range_header, range_header_of, window_of};

verus! {

/// Credentials for a backend.
#[derive(Clone, Debug)]
pub enum Credential {
    /// An access key pair.
    HMAC { access_key_id: String, secret_access_key: String },
    /// A bearer token.
    Token(String),
}

/// The parts of a URI as text: scheme, authority, path and query.
pub struct UriParts {
    pub scheme: Option<String>,
    pub authority: Option<String>,
    pub path_and_query: Option<String>,
}

pub open spec fn opt_view(o: Option<String>) -> Option<Seq<char>> {
    match o {
        Some(s) => Some(s@),
        None => None,
    }
}

/// What `http` makes of `s` as a URI: `None` when it does not parse, else the
/// text of its scheme, authority and path-and-query, each when present.
pub uninterp spec fn uri_split_of(s: Seq<char>) -> Option<
    (Option<Seq<char>>, Option<Seq<char>>, Option<Seq<char>>),
>;

/// The text of the URI that `http` builds from a scheme, an authority and a
/// path-and-query, or `None` when it refuses them.
pub uninterp spec fn uri_join_of(scheme: Seq<char>, authority: Seq<char>, path_and_query: Seq<
    char,
>) -> Option<Seq<char>>;

/// Relies on `http::Uri::from_str` and `Uri::into_parts`: parses `s` and
/// hands back the text of each part that the URI has.
#[verifier::external_body]
fn split_uri(s: &str) -> (r: Option<UriParts>)
    ensures
        match r {
            None => uri_split_of(s@) is None,
            Some(p) => uri_split_of(s@) == Some(
                (opt_view(p.scheme), opt_view(p.authority), opt_view(p.path_and_query)),
            ),
        },
{
    let parts = <http::Uri as std::str::FromStr>::from_str(s).ok()?.into_parts();
    Some(UriParts {
        scheme: parts.scheme.map(|x| x.as_str().to_string()),
        authority: parts.authority.map(|x| x.as_str().to_string()),
        path_and_query: parts.path_and_query.map(|x| x.as_str().to_string()),
    })
}

/// Relies on `http::Uri::from_parts`, with each part parsed from its text:
/// the text of the URI built from the three parts.
#[verifier::external_body]
fn join_uri(scheme: &str, authority: &str, path_and_query: &str) -> (r: Option<String>)
    ensures
        match r {
            None => uri_join_of(scheme@, authority@, path_and_query@) is None,
            Some(u) => uri_join_of(scheme@, authority@, path_and_query@) == Some(u@),
        },
{
    let mut parts = http::uri::Parts::default();
    parts.scheme = Some(scheme.parse().ok()?);
    parts.authority = Some(authority.parse().ok()?);
    parts.path_and_query = Some(path_and_query.parse().ok()?);
    Some(http::Uri::from_parts(parts).ok()?.to_string())
}

/// How an S3 request failed, as far as this library tells failures apart.
pub enum RequestFailure {
    /// The service answered that the key does not exist.
    NotFound,
    /// The service answered with another error.
    Service,
    /// No answer came; the text describes why.
    Transport(String),
}

/// The shared error for a failed request on `path`: a missing key is
/// `ObjectNotExist`, any other failure `Unexpected`.
pub fn parse_error(failure: RequestFailure, path: &str) -> (e: Error)
    ensures
        match failure {
            RequestFailure::NotFound => e matches Error::ObjectNotExist(p) && p@ == path@,
            RequestFailure::Service => e matches Error::Unexpected(p) && p@ == path@,
            RequestFailure::Transport(t) => e matches Error::Unexpected(m) && m@ == t@,
        },
{
    match failure {
        RequestFailure::NotFound => Error::ObjectNotExist(String::from_str(path)),
        RequestFailure::Service => Error::Unexpected(String::from_str(path)),
        RequestFailure::Transport(t) => Error::Unexpected(t),
    }
}

/// The outcome of a delete request: success, or a failure that is not a
/// missing key, is passed on; deleting a missing key succeeds.
pub fn delete_outcome(failure: Option<RequestFailure>, path: &str) -> (r: Result<(), Error>)
    ensures
        match failure {
            None => r is Ok,
            Some(RequestFailure::NotFound) => r is Ok,
            Some(RequestFailure::Service) => r is Err && (r->Err_0 matches Error::Unexpected(p)
                && p@ == path@),
            Some(RequestFailure::Transport(t)) => r is Err && (r->Err_0 matches Error::Unexpected(m)
                && m@ == t@),
        },
{
    match failure {
        None => Ok(()),
        Some(RequestFailure::NotFound) => Ok(()),
        Some(f) => Err(parse_error(f, path)),
    }
}

/// How an S3 read of the given bounds is made.
pub enum ReadPlan {
    /// A plain request for the whole object.
    Whole,
    /// A request with this `Range` header.
    Range(String),
    /// An empty window: no bytes are fetched, but a stat must show that the
    /// object exists and reaches the offset.
    Probe,
    /// The window ends past the largest `u64`, so no object holds it.
    OutOfRange,
}

/// Chooses how to read the bytes that `offset` and `size` select.
pub fn plan_read(offset: Option<u64>, size: Option<u64>) -> (r: ReadPlan)
    ensures
        offset is None && size is None ==> r is Whole,
        size == Some(0u64) ==> r is Probe,
        (offset is Some || size is Some) && size != Some(0u64) ==> match range_header_of(
            offset,
            size,
        ) {
            Some(h) => r is Range && r->Range_0@ == h,
            None => r is OutOfRange,
        },
{
    if offset.is_none() && size.is_none() {
        return ReadPlan::Whole;
    }
    match size {
        Some(n) => if n == 0 {
            return ReadPlan::Probe;
        },
        None => {},
    }
    match range_header(offset, size) {
        Some(h) => ReadPlan::Range(h),
        None => ReadPlan::OutOfRange,
    }
}

/// The result of an empty-window read of an object of `len` bytes: nothing,
/// or a failure when the offset lies past the end.
pub fn probe_result(offset: Option<u64>, len: u64, path: &str) -> (r: Result<Vec<u8>, Error>)
    ensures
        window_of(len as nat, offset, Some(0u64)) is Some ==> r is Ok && r->Ok_0@.len() == 0,
        window_of(len as nat, offset, Some(0u64)) is None ==> r is Err && r->Err_0.spec_kind()
            == Kind::Unexpected,
{
    match offset {
        Some(o) => if o > len {
            return Err(Error::Unexpected(String::from_str(path)));
        },
        None => {},
    }
    Ok(Vec::new())
}

/// Checks the answer to a ranged request with both bounds: a window that
/// runs past the end of the object comes back short, which is a failure
/// rather than a shorter result. Other answers are kept as they are.
pub fn check_ranged(offset: Option<u64>, size: Option<u64>, got: Vec<u8>, path: &str) -> (r: Result<
    Vec<u8>,
    Error,
>)
    ensures
        match (offset, size) {
            (Some(_), Some(n)) => if got@.len() == n {
                r == Ok::<Vec<u8>, Error>(got)
            } else {
                r is Err && r->Err_0.spec_kind() == Kind::Unexpected
            },
            _ => r == Ok::<Vec<u8>, Error>(got),
        },
{
    match (offset, size) {
        (Some(_), Some(n)) => {
            if got.len() as u64 != n {
                return Err(Error::Unexpected(String::from_str(path)));
            }
            Ok(got)
        },
        _ => Ok(got),
    }
}

/// `e` is a configuration error for `key` with `value`.
pub open spec fn is_invalid(e: Error, key: Seq<char>, value: Seq<char>) -> bool {
    match e {
        Error::BackendConfigurationInvalid { key: k, value: v } => k@ == key && v@ == value,
        _ => false,
    }
}

fn invalid(key: &str, value: &str) -> (e: Error)
    ensures
        is_invalid(e, key@, value@),
{
    Error::BackendConfigurationInvalid { key: String::from_str(key), value: String::from_str(value) }
}

/// The endpoint that a user's input stands for: it must parse as a URI with
/// an authority; a missing scheme is `https` and a missing path is `/`.
pub open spec fn endpoint_of(s: Seq<char>) -> Option<Seq<char>> {
    match uri_split_of(s) {
        None => None,
        Some((scheme, authority, pq)) => match authority {
            None => None,
            Some(a) => uri_join_of(
                match scheme {
                    Some(x) => x,
                    None => "https"@,
                },
                a,
                match pq {
                    Some(x) => x,
                    None => "/"@,
                },
            ),
        },
    }
}

/// Turns a user's endpoint into a full URI, or a configuration error for the
/// key `endpoint` that carries the input.
pub fn normalize_endpoint(endpoint: &str) -> (r: Result<String, Error>)
    ensures
        match endpoint_of(endpoint@) {
            Some(u) => r is Ok && r->Ok_0@ == u,
            None => r is Err && is_invalid(r->Err_0, "endpoint"@, endpoint@),
        },
{
    let parts = match split_uri(endpoint) {
        Some(p) => p,
        None => return Err(invalid("endpoint", endpoint)),
    };
    let authority = match &parts.authority {
        Some(a) => a.as_str(),
        None => return Err(invalid("endpoint", endpoint)),
    };
    let scheme = match &parts.scheme {
        Some(s) => s.as_str(),
        None => "https",
    };
    let pq = match &parts.path_and_query {
        Some(p) => p.as_str(),
        None => "/",
    };
    proof {
        reveal_strlit("https");
        reveal_strlit("/");
    }
    match join_uri(scheme, authority, pq) {
        Some(u) => Ok(u),
        None => Err(invalid("endpoint", endpoint)),
    }
}

/// `s` without one leading `/`, if it has one.
pub open spec fn strip_slash(s: Seq<char>) -> Seq<char> {
    if s.len() > 0 && s[0] == '/' {
        s.drop_first()
    } else {
        s
    }
}

fn strip_leading_slash(s: &str) -> (r: String)
    ensures
        r@ == strip_slash(s@),
{
    let n = s.unicode_len();
    if n > 0 && s.get_char(0) == '/' {
        String::from_str(s.substring_char(1, n))
    } else {
        String::from_str(s)
    }
}

/// The path of `path` in the bucket: an absolute path loses its leading `/`;
/// a relative one is placed under `root`.
pub open spec fn abs_path_of(root: Seq<char>, path: Seq<char>) -> Seq<char> {
    if path.len() > 0 && path[0] == '/' {
        path.drop_first()
    } else if root.len() == 0 {
        path
    } else {
        root + "/"@ + path
    }
}

pub fn get_abs_path(root: &str, path: &str) -> (r: String)
    ensures
        r@ == abs_path_of(root@, path@),
{
    let n = path.unicode_len();
    if n > 0 && path.get_char(0) == '/' {
        return String::from_str(path.substring_char(1, n));
    }
    if root.unicode_len() == 0 {
        return String::from_str(path);
    }
    let mut r = String::from_str(root);
    r.append("/");
    r.append(path);
    r
}

/// A credential other than a key pair, which an S3 backend cannot use.
pub open spec fn is_token(c: Option<Credential>) -> bool {
    match c {
        Some(Credential::Token(_)) => true,
        _ => false,
    }
}

/// Settings of an S3 backend. Empty inputs count as absent.
#[derive(Clone, Debug)]
pub struct Builder {
    root: Option<String>,
    bucket: String,
    region: Option<String>,
    credential: Option<Credential>,
    endpoint: Option<String>,
}

/// The abstract content of a `Builder`.
pub struct BuilderView {
    pub root: Option<Seq<char>>,
    pub bucket: Seq<char>,
    pub region: Option<Seq<char>>,
    pub credential: Option<Credential>,
    pub endpoint: Option<Seq<char>>,
}

/// `None` for empty text.
pub open spec fn non_empty(s: Seq<char>) -> Option<Seq<char>> {
    if s.len() == 0 {
        None
    } else {
        Some(s)
    }
}

fn non_empty_string(s: &str) -> (r: Option<String>)
    ensures
        opt_view(r) == non_empty(s@),
{
    if s.is_empty() {
        None
    } else {
        Some(String::from_str(s))
    }
}

impl View for Builder {
    type V = BuilderView;

    closed spec fn view(&self) -> BuilderView {
        BuilderView {
            root: opt_view(self.root),
            bucket: self.bucket@,
            region: opt_view(self.region),
            credential: self.credential,
            endpoint: opt_view(self.endpoint),
        }
    }
}

impl Default for Builder {
    fn default() -> (r: Builder)
        ensures
            r@ == (BuilderView {
                root: None,
                bucket: Seq::empty(),
                region: None,
                credential: None,
                endpoint: None,
            }),
    {
        Builder { root: None, bucket: String::new(), region: None, credential: None, endpoint: None }
    }
}

/// What an S3 backend is built from, once the settings are checked.
pub struct Settings {
    /// The root, without a leading `/`; empty for none.
    pub root: String,
    pub bucket: String,
    pub region: Option<String>,
    /// The access key id and the secret access key.
    pub keys: Option<(String, String)>,
    /// The full endpoint URI.
    pub endpoint: Option<String>,
}

impl Builder {
    pub fn root(&mut self, root: &str) -> (r: &mut Self)
        ensures
            r@ == (BuilderView { root: non_empty(root@), ..old(self)@ }),
            final(self)@ == final(r)@,
    {
        self.root = non_empty_string(root);
        self
    }

    pub fn bucket(&mut self, bucket: &str) -> (r: &mut Self)
        ensures
            r@ == (BuilderView { bucket: bucket@, ..old(self)@ }),
            final(self)@ == final(r)@,
    {
        self.bucket = String::from_str(bucket);
        self
    }

    pub fn region(&mut self, region: &str) -> (r: &mut Self)
        ensures
            r@ == (BuilderView { region: non_empty(region@), ..old(self)@ }),
            final(self)@ == final(r)@,
    {
        self.region = non_empty_string(region);
        self
    }

    pub fn credential(&mut self, credential: Credential) -> (r: &mut Self)
        ensures
            r@ == (BuilderView { credential: Some(credential), ..old(self)@ }),
            final(self)@ == final(r)@,
    {
        self.credential = Some(credential);
        self
    }

    pub fn endpoint(&mut self, endpoint: &str) -> (r: &mut Self)
        ensures
            r@ == (BuilderView { endpoint: non_empty(endpoint@), ..old(self)@ }),
            final(self)@ == final(r)@,
    {
        self.endpoint = non_empty_string(endpoint);
        self
    }

    /// Checks the settings before any I/O. An empty bucket, a credential
    /// other than a key pair, and an endpoint that is not a URI with an
    /// authority are configuration errors, found in that order.
    pub fn prepare(&self) -> (r: Result<Settings, Error>)
        ensures
            self@.bucket.len() == 0 ==> r is Err && is_invalid(r->Err_0, "bucket"@, ""@),
            self@.bucket.len() > 0 && is_token(self@.credential) ==> r is Err
                && is_invalid(r->Err_0, "credential"@, ""@),
            self@.bucket.len() > 0 && !(is_token(self@.credential))
                && self@.endpoint is Some && endpoint_of(self@.endpoint->0) is None ==> r is Err
                && is_invalid(r->Err_0, "endpoint"@, self@.endpoint->0),
            r is Ok ==> {
                let s = r->Ok_0;
                &&& self@.bucket.len() > 0
                &&& s.bucket@ == self@.bucket
                &&& s.root@ == match self@.root {
                    Some(x) => strip_slash(x),
                    None => Seq::empty(),
                }
                &&& opt_view(s.region) == self@.region
                &&& match self@.credential {
                    None => s.keys is None,
                    Some(Credential::HMAC { access_key_id, secret_access_key }) => match s.keys {
                        Some((a, b)) => a@ == access_key_id@ && b@ == secret_access_key@,
                        None => false,
                    },
                    Some(Credential::Token(_)) => false,
                }
                &&& match self@.endpoint {
                    None => s.endpoint is None,
                    Some(e) => s.endpoint is Some && Some(s.endpoint->0@) == endpoint_of(e),
                }
            },
            self@.bucket.len() > 0 && !(is_token(self@.credential)) && (
            self@.endpoint is None || endpoint_of(self@.endpoint->0) is Some) ==> r is Ok,
    {
        if self.bucket.as_str().is_empty() {
            return Err(invalid("bucket", ""));
        }
        let root = match &self.root {
            Some(x) => strip_leading_slash(x.as_str()),
            None => String::new(),
        };
        let keys = match &self.credential {
            None => None,
            Some(Credential::HMAC { access_key_id, secret_access_key }) => Some(
                (access_key_id.clone(), secret_access_key.clone()),
            ),
            Some(Credential::Token(_)) => {
                return Err(invalid("credential", ""));
            },
        };
        let endpoint = match &self.endpoint {
            None => None,
            Some(e) => match normalize_endpoint(e.as_str()) {
                Ok(u) => Some(u),
                Err(err) => {
                    return Err(err);
                },
            },
        };
        let region = match &self.region {
            Some(x) => Some(x.clone()),
            None => None,
        };
        Ok(Settings { root, bucket: self.bucket.clone(), region, keys, endpoint })
    }
}

} // verus!
