use crate::jsoncrawler::JsonOutFileType;
use vstd::prelude::*;

verus! {

/// The address of a site's listing: `http://`, the site,
/// `/wp-json/wp/v2/`, the listing, `?per_page=100`.
pub fn listing_url(url: &str, query: &str) -> (address: String)
    ensures
        address@ == "http://"@ + url@ + "/wp-json/wp/v2/"@ + query@ + "?per_page=100"@,
{
    let mut address = String::from_str("http://");
    address.append(url);
    address.append("/wp-json/wp/v2/");
    address.append(query);
    address.append("?per_page=100");
    address
}

/// How a listing request ended.
pub enum ListingOutcome {
    /// Status OK and the body read.
    Body(String),
    /// Status OK but reading the body failed.
    BodyError,
    /// A status other than OK.
    OtherStatus,
    /// The request itself failed.
    SendError,
}

/// What a listing request gives the store step: the body and `Valid`, or
/// nothing and the kind of failure.
pub open spec fn listing_response_spec(outcome: ListingOutcome) -> (Seq<char>, JsonOutFileType) {
    match outcome {
        ListingOutcome::Body(text) => (text@, JsonOutFileType::Valid),
        ListingOutcome::BodyError => (Seq::empty(), JsonOutFileType::Invalid),
        ListingOutcome::OtherStatus => (Seq::empty(), JsonOutFileType::Unknown),
        ListingOutcome::SendError => (Seq::empty(), JsonOutFileType::Error),
    }
}

/// The result of a listing request, as `fetch_page_html` hands it on.
pub fn listing_response(outcome: ListingOutcome) -> (r: (String, JsonOutFileType))
    ensures
        (r.0@, r.1) == listing_response_spec(outcome),
{
    match outcome {
        ListingOutcome::Body(text) => (text, JsonOutFileType::Valid),
        ListingOutcome::BodyError => (String::new(), JsonOutFileType::Invalid),
        ListingOutcome::OtherStatus => (String::new(), JsonOutFileType::Unknown),
        ListingOutcome::SendError => (String::new(), JsonOutFileType::Error),
    }
}

/// log to console if configuration verbose: the line `message - data`.
pub fn log(message: &str, data: &str) -> (line: String)
    ensures
        line@ == message@ + " - "@ + data@,
{
    let mut line = String::from_str(message);
    line.append(" - ");
    line.append(data);
    line
}

} // verus!
