//! One existence probe: the URL it targets and how its outcome is classified.
use vstd::prelude::*;
use vstd::string::StringExecFns;

verus! {

/// The status that marks a path as absent.
pub const NOT_FOUND: u16 = 404;

/// What one probe found out about its URL.
#[derive(Debug, PartialEq, Eq)]
pub enum ProbeResult {
    /// The target answered with any status but "not found".
    Exists(String),
    /// The target answered "not found".
    NotFound,
    /// The request could not be built or the transport failed; holds the error text.
    Failed(String),
}

/// The mathematical model of a `ProbeResult`.
pub ghost enum Outcome {
    Exists(Seq<char>),
    NotFound,
    Failed(Seq<char>),
}

impl View for ProbeResult {
    type V = Outcome;

    open spec fn view(&self) -> Outcome {
        match self {
            ProbeResult::Exists(u) => Outcome::Exists(u@),
            ProbeResult::NotFound => Outcome::NotFound,
            ProbeResult::Failed(e) => Outcome::Failed(e@),
        }
    }
}

/// The URL probed for one candidate path: the base followed by the line, verbatim.
pub open spec fn url_of(base_url: Seq<char>, line: Seq<char>) -> Seq<char> {
    base_url + line
}

/// What the network reported for one request: a status, or the text of a failure.
pub open spec fn response_view(response: Result<u16, String>) -> Result<u16, Seq<char>> {
    match response {
        Ok(status) => Ok(status),
        Err(e) => Err(e@),
    }
}

/// How a response for `url` is classified: every status but "not found" means
/// the path exists, redirects and server errors included.
pub open spec fn classify(url: Seq<char>, response: Result<u16, Seq<char>>) -> Outcome {
    match response {
        Ok(status) => if status == NOT_FOUND {
            Outcome::NotFound
        } else {
            Outcome::Exists(url)
        },
        Err(e) => Outcome::Failed(e),
    }
}

#[verifier::external_type_specification]
#[verifier::external_body]
pub struct ExUri(hyper::Uri);

#[verifier::external_type_specification]
#[verifier::external_body]
pub struct ExInvalidUri(hyper::http::uri::InvalidUri);

#[verifier::external_type_specification]
#[verifier::external_body]
pub struct ExBody(hyper::Body);

#[verifier::external_type_specification]
#[verifier::external_body]
pub struct ExHttpError(hyper::http::Error);

#[verifier::external_type_specification]
#[verifier::external_body]
#[verifier::reject_recursive_types(T)]
pub struct ExRequest<T>(hyper::Request<T>);

/// Whether http's URI parser accepts the text.
pub uninterp spec fn uri_accepts(s: Seq<char>) -> bool;

/// Relies on `<hyper::Uri as FromStr>::from_str`: it succeeds exactly when the
/// text is a URI that the parser accepts, and refuses the empty string.
#[verifier::external_body]
fn parse_uri(s: &str) -> (r: Result<hyper::Uri, hyper::http::uri::InvalidUri>)
    ensures
        r is Ok <==> uri_accepts(s@),
        s@.len() == 0 ==> r is Err,
{
    <hyper::Uri as std::str::FromStr>::from_str(s)
}

/// Relies on `InvalidUri`'s `Display`: the text of a parse error.
#[verifier::external_body]
fn invalid_uri_text(e: &hyper::http::uri::InvalidUri) -> (r: String) {
    e.to_string()
}

/// Relies on `hyper::Request::builder` with `method(Method::HEAD)`, `uri` and
/// `body(Body::empty())`: an already parsed URI and a fixed method cannot fail
/// the builder, so the result is always `Ok`.
#[verifier::external_body]
fn head_request(uri: hyper::Uri) -> (r: Result<hyper::Request<hyper::Body>, hyper::http::Error>)
    ensures
        r is Ok,
{
    hyper::Request::builder().method(hyper::Method::HEAD).uri(uri).body(hyper::Body::empty())
}

/// Relies on `hyper::http::Error`'s `Display`: the text of a builder error.
#[verifier::external_body]
fn http_error_text(e: &hyper::http::Error) -> (r: String) {
    e.to_string()
}

/// Builds the URL for one candidate path, with no escaping or normalization.
pub fn target_url(base_url: &str, line: &str) -> (r: String)
    ensures
        r@ == url_of(base_url@, line@),
{
    let mut url = String::from_str(base_url);
    url.append(line);
    url
}

/// Prepares the minimal request of an existence probe: a `HEAD` request with
/// an empty body. A URL that does not parse gives the parser's error text.
pub fn prepare_probe(url: &str) -> (r: Result<hyper::Request<hyper::Body>, String>)
    ensures
        r is Ok <==> uri_accepts(url@),
        url@.len() == 0 ==> r is Err,
{
    match parse_uri(url) {
        Ok(uri) => match head_request(uri) {
            Ok(req) => Ok(req),
            Err(e) => Err(http_error_text(&e)),
        },
        Err(e) => Err(invalid_uri_text(&e)),
    }
}

/// Classifies the response that the request for `url` received.
pub fn probe_result(url: String, response: Result<u16, String>) -> (r: ProbeResult)
    ensures
        r@ == classify(url@, response_view(response)),
{
    match response {
        Ok(status) => if status == NOT_FOUND {
            ProbeResult::NotFound
        } else {
            ProbeResult::Exists(url)
        },
        Err(e) => ProbeResult::Failed(e),
    }
}

} // verus!
