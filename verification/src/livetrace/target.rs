//! The URL a batch is posted to: the configured endpoint, with the OTLP traces
//! path `/v1/traces` when the endpoint has no path of its own.
use vstd::prelude::*;
use vstd::string::*;
use reqwest::Url;
use crate::text::str_eq;

verus! {

#[verifier::external_type_specification]
#[verifier::external_body]
pub struct ExUrl(Url);

/// The text of a URL (`Url::as_str`), which determines the URL.
pub uninterp spec fn url_text(url: Url) -> Seq<char>;

/// The text of the URL that `Url::parse` reads from `text`, or `None` when it
/// refuses it.
pub uninterp spec fn url_parsed(text: Seq<char>) -> Option<Seq<char>>;

/// The path of the URL with this text (`Url::path`).
pub uninterp spec fn url_path(url: Seq<char>) -> Seq<char>;

/// The text of the URL that `Url::join` makes of `input` against the URL with
/// text `base`, or `None` when it refuses it.
pub uninterp spec fn url_joined(base: Seq<char>, input: Seq<char>) -> Option<Seq<char>>;

/// `Url::parse`, named by `url_parsed`.
#[verifier::external_body]
fn parse_url(text: &str) -> (r: Option<Url>)
    ensures
        match r {
            Some(url) => url_parsed(text@) == Some(url_text(url)),
            None => url_parsed(text@) is None,
        },
{
    Url::parse(text).ok()
}

/// `Url::path`, named by `url_path`.
#[verifier::external_body]
fn path_of(url: &Url) -> (r: String)
    ensures
        r@ == url_path(url_text(*url)),
{
    url.path().to_string()
}

/// `Url::join`, named by `url_joined`.
#[verifier::external_body]
fn join_url(url: &Url, input: &str) -> (r: Option<Url>)
    ensures
        match r {
            Some(joined) => url_joined(url_text(*url), input@) == Some(url_text(joined)),
            None => url_joined(url_text(*url), input@) is None,
        },
{
    url.join(input).ok()
}

/// `Url::as_str`, named by `url_text`.
#[verifier::external_body]
fn text_of(url: &Url) -> (r: String)
    ensures
        r@ == url_text(*url),
{
    url.as_str().to_string()
}

/// Whether an endpoint with this path gets the traces path: its path is `/`
/// or empty.
pub open spec fn needs_traces_path_spec(path: Seq<char>) -> bool {
    path == "/"@ || path.len() == 0
}

/// Whether an endpoint with this path gets the traces path (see
/// `needs_traces_path_spec`).
pub fn needs_traces_path(path: &str) -> (b: bool)
    ensures
        b == needs_traces_path_spec(path@),
{
    str_eq(path, "/") || path.unicode_len() == 0
}

/// Why no URL could be made of an endpoint.
pub enum TargetUrlError {
    /// `Url::parse` refused the endpoint.
    InvalidEndpoint { endpoint: String },
    /// `Url::join` refused the traces path against the endpoint.
    JoinFailed { endpoint: String },
}

impl TargetUrlError {
    /// The error message.
    pub fn message(&self) -> (r: String)
        ensures
            r@ == match self {
                TargetUrlError::InvalidEndpoint { endpoint } => "Invalid OTLP endpoint URL: "@ + endpoint@,
                TargetUrlError::JoinFailed { endpoint } => "Failed to join /v1/traces to base endpoint URL: "@
                    + endpoint@,
            },
    {
        match self {
            TargetUrlError::InvalidEndpoint { endpoint } => {
                let mut m = String::from_str("Invalid OTLP endpoint URL: ");
                m.append(endpoint.as_str());
                m
            },
            TargetUrlError::JoinFailed { endpoint } => {
                let mut m = String::from_str("Failed to join /v1/traces to base endpoint URL: ");
                m.append(endpoint.as_str());
                m
            },
        }
    }
}

/// What `otlp_target_url` gives for an endpoint: an error when `Url::parse`
/// refuses it; the parsed endpoint joined with `/v1/traces` when its path is `/`
/// or empty (an error when the join is refused); else the parsed endpoint.
pub open spec fn target_url_outcome(endpoint: Seq<char>, r: Result<String, TargetUrlError>) -> bool {
    match url_parsed(endpoint) {
        None => r matches Err(TargetUrlError::InvalidEndpoint { endpoint: e }) && e@ == endpoint,
        Some(base) => if needs_traces_path_spec(url_path(base)) {
            match url_joined(base, "/v1/traces"@) {
                Some(target) => r matches Ok(s) && s@ == target,
                None => r matches Err(TargetUrlError::JoinFailed { endpoint: e }) && e@ == endpoint,
            }
        } else {
            r matches Ok(s) && s@ == base
        },
    }
}

/// An endpoint with a path of its own is used as it is: whenever the parsed
/// endpoint's path is neither `/` nor empty, the target URL is the parsed
/// endpoint, whatever that path holds. Only a root or empty path gets
/// `/v1/traces` joined to it.
pub proof fn lemma_target_url_keeps_own_path(
    endpoint: Seq<char>,
    r: Result<String, TargetUrlError>,
    base: Seq<char>,
)
    requires
        target_url_outcome(endpoint, r),
        url_parsed(endpoint) == Some(base),
    ensures
        url_path(base) != "/"@ && url_path(base).len() > 0 ==> (r matches Ok(s) && s@ == base),
        (url_path(base) == "/"@ || url_path(base).len() == 0) ==> match url_joined(
            base,
            "/v1/traces"@,
        ) {
            Some(target) => r matches Ok(s) && s@ == target,
            None => r is Err,
        },
        needs_traces_path_spec(url_path(base)) <==> (url_path(base) == "/"@ || url_path(base).len()
            == 0),
{
}

/// The URL a batch is posted to: the endpoint as `Url::parse` reads it, joined
/// with `/v1/traces` when its path is `/` or empty, else as it is.
pub fn otlp_target_url(endpoint: &str) -> (r: Result<String, TargetUrlError>)
    ensures
        target_url_outcome(endpoint@, r),
{
    let base = match parse_url(endpoint) {
        Some(u) => u,
        None => {
            return Err(TargetUrlError::InvalidEndpoint { endpoint: String::from_str(endpoint) });
        },
    };
    let path = path_of(&base);
    if needs_traces_path(path.as_str()) {
        match join_url(&base, "/v1/traces") {
            Some(target) => Ok(text_of(&target)),
            None => Err(TargetUrlError::JoinFailed { endpoint: String::from_str(endpoint) }),
        }
    } else {
        Ok(text_of(&base))
    }
}

} // verus!
