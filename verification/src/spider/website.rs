use super::configuration::Configuration;
use crate::jsoncrawler::fs::{BodyRoute, OutputFile};
use crate::jsoncrawler::JsonOutFileType;
use crate::jsoncrawler::configuration::query_code;
use crate::outside::{json_is_present, json_value_present};
use crate::text::{chars_eq_str, chars_of, split_chars, split_spec, views};
use vstd::prelude::*;

verus! {

/// Represents a a web crawler for gathering links.
pub struct Website {
    /// configuration properties for website.
    pub configuration: Configuration,
    /// Path to list of files.
    pub path: Option<String>,
    /// Path to jsonl output.
    pub jsonl_output_path: String,
    /// Path to ok txt output.
    pub ok_txt_output_path: String,
    /// Path to ok txt invalid output.
    pub okv_txt_output_path: String,
    /// Path to connection error txt output.
    pub cr_txt_output_path: String,
    /// Path to all other outputs.
    pub al_txt_output_path: String,
}

impl Website {
    /// Initialize Website object with a start link to crawl.
    pub fn new(domain: &str) -> (w: Self)
        ensures
            w.path matches Some(p) && p@ == domain@,
            w.configuration.user_agent@ == Seq::<char>::empty(),
            w.configuration.delay == 250,
            w.jsonl_output_path@ == "output.jsonl"@,
            w.ok_txt_output_path@ == "ok-valid_json.txt"@,
            w.okv_txt_output_path@ == "ok-not_valid_json.txt"@,
            w.cr_txt_output_path@ == "connection_error.txt"@,
            w.al_txt_output_path@ == "all-others.txt"@,
    {
        Website {
            configuration: Configuration::new(),
            path: Some(String::from_str(domain)),
            jsonl_output_path: String::from_str("output.jsonl"),
            ok_txt_output_path: String::from_str("ok-valid_json.txt"),
            okv_txt_output_path: String::from_str("ok-not_valid_json.txt"),
            cr_txt_output_path: String::from_str("connection_error.txt"),
            al_txt_output_path: String::from_str("all-others.txt"),
        }
    }
}

/// The listing code after the lines of `config.txt`: the last line
/// `query <listing>` with a known listing sets it; `posts` by default.
pub open spec fn query_fold(lines: Seq<Seq<char>>) -> u8
    decreases lines.len(),
{
    if lines.len() == 0 {
        1
    } else {
        let q = query_fold(lines.drop_last());
        let hh = split_spec(lines.last(), ' ');
        if hh.len() == 2 && hh[0] == "query"@ && hh[1].len() > 0 && query_code(hh[1]) is Some {
            query_code(hh[1]).unwrap()
        } else {
            q
        }
    }
}

/// The listing the crawler asks every site for.
pub open spec fn query_name(q: u8) -> Seq<char> {
    if q == 2 {
        "pages"@
    } else if q == 3 {
        "users"@
    } else if q == 4 {
        "comments"@
    } else if q == 5 {
        "search"@
    } else {
        "posts"@
    }
}

/// configure query base quickly: the listing named by the lines of
/// `config.txt`.
pub fn setup_query(lines: &Vec<String>) -> (query: &'static str)
    ensures
        query@ == query_name(query_fold(lines.deep_view())),
{
    let mut q: u8 = 1;
    let mut i: usize = 0;
    while i < lines.len()
        invariant
            i <= lines.len(),
            q == query_fold(lines.deep_view().take(i as int)),
        decreases lines.len() - i,
    {
        assert(lines.deep_view().take(i + 1).drop_last() =~= lines.deep_view().take(i as int));
        assert(lines.deep_view().take(i + 1).last() == lines[i as int]@);
        let cs = chars_of(lines[i].as_str());
        let hh = split_chars(&cs, ' ');
        if hh.len() == 2 && hh[1].len() > 0 {
            assert(views(hh@)[0] == hh[0]@);
            assert(views(hh@)[1] == hh[1]@);
            if chars_eq_str(hh[0].as_slice(), "query") {
                let v = hh[1].as_slice();
                if chars_eq_str(v, "posts") {
                    q = 1;
                } else if chars_eq_str(v, "pages") {
                    q = 2;
                } else if chars_eq_str(v, "users") {
                    q = 3;
                } else if chars_eq_str(v, "comments") {
                    q = 4;
                } else if chars_eq_str(v, "search") {
                    q = 5;
                }
            }
        }
        i = i + 1;
    }
    assert(lines.deep_view().take(lines.len() as int) =~= lines.deep_view());
    if q == 2 {
        "pages"
    } else if q == 3 {
        "users"
    } else if q == 4 {
        "comments"
    } else if q == 5 {
        "search"
    } else {
        "posts"
    }
}

/// The capacity of the channel that carries results to the store step:
/// twice the logical cores from four cores up, eight below (the branch for
/// more than eight cores is never reached, as the first one takes them).
pub open spec fn channel_capacity_spec(cpus: usize) -> usize {
    if cpus >= 4 {
        (cpus * 2) as usize
    } else if cpus > 8 {
        (cpus * 6) as usize
    } else {
        8
    }
}

/// The capacity of the results channel for `cpus` logical cores.
pub fn channel_capacity(cpus: usize) -> (capacity: usize)
    requires
        cpus * 2 <= usize::MAX,
    ensures
        capacity == channel_capacity_spec(cpus),
{
    if cpus >= 4 {
        cpus * 2
    } else if cpus > 8 {
        cpus * 6
    } else {
        8
    }
}

/// How the store step files one listing result.
pub struct ListingPlan {
    /// The line written for the site: the link and a line break.
    pub line: String,
    /// The file the fetch status alone sends the line to.
    pub status_file: Option<OutputFile>,
    /// What happens to the body.
    pub body: BodyRoute,
}

/// The status file of a listing result: connection errors and other
/// statuses have files of their own.
pub open spec fn listing_status_file(kind: JsonOutFileType) -> Option<OutputFile> {
    match kind {
        JsonOutFileType::Error => Some(OutputFile::ConnectionError),
        JsonOutFileType::Unknown => Some(OutputFile::AllOthers),
        _ => None,
    }
}

/// What happens to a listing body: nothing when empty; a JSON value goes to
/// the JSON lines file, anything else sends the line to the not-valid file.
pub open spec fn listing_body_route(json: Seq<char>) -> BodyRoute {
    if json.len() == 0 {
        BodyRoute::Skip
    } else if json_value_present(json) {
        BodyRoute::Json
    } else {
        BodyRoute::NotJson
    }
}

/// How the store step of `crawl_concurrent` files one listing result.
pub fn plan_listing(link: &str, json: &str, kind: JsonOutFileType) -> (plan: ListingPlan)
    ensures
        plan.line@ == link@ + seq!['\n'],
        plan.status_file == listing_status_file(kind),
        plan.body == listing_body_route(json@),
{
    let mut line = String::from_str(link);
    line.push('\n');
    let status_file = match kind {
        JsonOutFileType::Error => Some(OutputFile::ConnectionError),
        JsonOutFileType::Unknown => Some(OutputFile::AllOthers),
        _ => None,
    };
    let body = if json.is_empty() {
        BodyRoute::Skip
    } else if json_is_present(json) {
        BodyRoute::Json
    } else {
        BodyRoute::NotJson
    };
    ListingPlan { line, status_file, body }
}

} // verus!
