use super::ResponseOutFileType;
use vstd::prelude::*;

verus! {

/// The name of a truth value.
pub open spec fn truthy(v: bool) -> Seq<char> {
    if v {
        "true"@
    } else {
        "false"@
    }
}

/// return a static string based on condition
pub fn static_truthy_string(v: bool) -> (s: &'static str)
    ensures
        s@ == truthy(v),
{
    if v {
        "true"
    } else {
        "false"
    }
}

/// What a failed request reports of itself (`reqwest::Error`'s `is_*`
/// answers).
pub struct ErrorFlags {
    pub connect: bool,
    pub redirect: bool,
    pub status: bool,
    pub timeout: bool,
    pub request: bool,
}

/// The error report of a failed request.
pub open spec fn error_report(url: Seq<char>, e: ErrorFlags) -> Seq<char> {
    "- error "@ + url + " - connect_error: "@ + truthy(e.connect) + " - redirect_error "@ + truthy(
        e.redirect,
    ) + " - status_error: "@ + truthy(e.status) + " - timeout_error: "@ + truthy(e.timeout)
        + " - request_error: "@ + truthy(e.request)
}

/// build the error string
pub fn build_error(url: &str, error: &ErrorFlags) -> (report: String)
    ensures
        report@ == error_report(url@, *error),
{
    let mut s = String::from_str("- error ");
    s.append(url);
    s.append(" - connect_error: ");
    s.append(static_truthy_string(error.connect));
    s.append(" - redirect_error ");
    s.append(static_truthy_string(error.redirect));
    s.append(" - status_error: ");
    s.append(static_truthy_string(error.status));
    s.append(" - timeout_error: ");
    s.append(static_truthy_string(error.timeout));
    s.append(" - request_error: ");
    s.append(static_truthy_string(error.request));
    s
}

/// The address a page is requested from: `http://`, the site, the path.
pub fn page_url(url: &str, path: &str) -> (address: String)
    ensures
        address@ == "http://"@ + url@ + path@,
{
    let mut address = String::from_str("http://");
    address.append(url);
    address.append(path);
    address
}

/// How a page request ended.
pub enum FetchOutcome {
    /// Status OK and the body read.
    Body(String),
    /// Status OK but reading the body failed.
    BodyError(ErrorFlags),
    /// A status other than OK.
    OtherStatus,
    /// The request itself failed.
    SendError(ErrorFlags),
}

/// What a page request gives the store step: the body and `Valid`; an error
/// report and `Invalid` or `Error` for a failed read or request; nothing and
/// `Unknown` for another status.
pub open spec fn page_response_spec(url: Seq<char>, outcome: FetchOutcome) -> (
    Seq<char>,
    ResponseOutFileType,
) {
    match outcome {
        FetchOutcome::Body(text) => (text@, ResponseOutFileType::Valid),
        FetchOutcome::BodyError(e) => (error_report(url, e), ResponseOutFileType::Invalid),
        FetchOutcome::OtherStatus => (Seq::empty(), ResponseOutFileType::Unknown),
        FetchOutcome::SendError(e) => (error_report(url, e), ResponseOutFileType::Error),
    }
}

/// The result of a page request, as `fetch_page_html` hands it on.
pub fn page_response(url: &str, outcome: FetchOutcome) -> (r: (String, ResponseOutFileType))
    ensures
        (r.0@, r.1) == page_response_spec(url@, outcome),
{
    match outcome {
        FetchOutcome::Body(text) => (text, ResponseOutFileType::Valid),
        FetchOutcome::BodyError(e) => (build_error(url, &e), ResponseOutFileType::Invalid),
        FetchOutcome::OtherStatus => (String::new(), ResponseOutFileType::Unknown),
        FetchOutcome::SendError(e) => (build_error(url, &e), ResponseOutFileType::Error),
    }
}

/// The log line of a message and its data: `message - data`.
pub fn log(message: &str, data: &str) -> (line: String)
    ensures
        line@ == message@ + " - "@ + data@,
{
    let mut line = String::from_str(message);
    line.append(" - ");
    line.append(data);
    line
}

/// The log line of a direct value: the value itself.
pub fn logd(data: &str) -> (line: String)
    ensures
        line@ == data@,
{
    String::from_str(data)
}

/// determine action
#[derive(PartialEq, Eq, Structural, Clone, Copy, Debug)]
pub enum Handler {
    /// crawl start state
    Start,
    /// crawl pause state
    Pause,
    /// crawl resume
    Resume,
    /// crawl shutdown
    Shutdown,
}

} // verus!
