use super::JsonOutFileType;
use crate::content::{content_texts, content_texts_spec, SelectorRefused};
use crate::outside::{json_is_present, json_value_present, regex_set_matches};
use crate::text::{chars_of, has_prefix, remove_first, remove_first_of, starts_with};
use crate::patterns::PatternSet;
use vstd::prelude::*;

verus! {

/// The text files a crawl result's link line can go to.
#[derive(PartialEq, Eq, Structural, Clone, Copy, Debug)]
pub enum OutputFile {
    /// `ok-valid_json.txt`
    OkValid,
    /// `ok-not_valid_json.txt`
    OkNotValid,
    /// `connection_error.txt`
    ConnectionError,
    /// `all-others.txt`
    AllOthers,
}

/// What to do with a response body.
#[derive(PartialEq, Eq, Structural, Clone, Copy, Debug)]
pub enum BodyRoute {
    /// Nothing: the body is empty or reports a fetch error.
    Skip,
    /// The body is no JSON value: its line goes to `ok-not_valid_json.txt`.
    NotJson,
    /// The body is a JSON value: it goes to `output.jsonl`, then its line to
    /// `ok-valid_json.txt`, or to `ok-not_valid_json.txt` when writing fails.
    Json,
}

/// How one crawl result is stored.
pub struct StorePlan {
    /// The line written for the result.
    pub line: String,
    /// The file that the line goes to for the fetch status alone.
    pub status_file: Option<OutputFile>,
    /// What happens to the body.
    pub body: BodyRoute,
}

/// The prefix of a response that reports a fetch error instead of a body.
pub open spec fn error_marker() -> Seq<char> {
    "- error "@
}

/// The response reports a fetch error.
pub open spec fn is_error_report(response: Seq<char>) -> bool {
    has_prefix(response, error_marker())
}

/// The line stored for a result: the error report without its marker for a
/// failed fetch, the link otherwise, ended by a line break.
pub open spec fn result_line(link: Seq<char>, response: Seq<char>) -> Seq<char> {
    if is_error_report(response) {
        remove_first(response, error_marker()) + seq!['\n']
    } else {
        link + seq!['\n']
    }
}

/// The file the fetch status alone sends the line to.
pub open spec fn status_file_spec(kind: JsonOutFileType) -> Option<OutputFile> {
    match kind {
        JsonOutFileType::Error => Some(OutputFile::ConnectionError),
        JsonOutFileType::Unknown => Some(OutputFile::AllOthers),
        _ => None,
    }
}

/// What happens to the body of a response.
pub open spec fn body_route_spec(response: Seq<char>) -> BodyRoute {
    if response.len() == 0 || is_error_report(response) {
        BodyRoute::Skip
    } else if json_value_present(response) {
        BodyRoute::Json
    } else {
        BodyRoute::NotJson
    }
}

/// The line stored for a result.
fn line_for(link: &str, response: &[char]) -> (line: String)
    ensures
        line@ == result_line(link@, response@),
{
    let marker = chars_of("- error ");
    if starts_with(response, marker.as_slice()) {
        let rest = remove_first_of(response, marker.as_slice());
        let mut line = crate::text::string_of(rest.as_slice());
        line.push('\n');
        line
    } else {
        let mut line = String::from_str(link);
        line.push('\n');
        line
    }
}

/// How the store step files one crawl result: the link (or error report),
/// the status file and the fate of the body.
pub fn plan_store(link: &str, response: &str, kind: JsonOutFileType) -> (plan: StorePlan)
    ensures
        plan.line@ == result_line(link@, response@),
        plan.status_file == status_file_spec(kind),
        plan.body == body_route_spec(response@),
{
    let rc = chars_of(response);
    let line = line_for(link, rc.as_slice());
    let marker = chars_of("- error ");
    let error = starts_with(rc.as_slice(), marker.as_slice());
    let status_file = match kind {
        JsonOutFileType::Error => Some(OutputFile::ConnectionError),
        JsonOutFileType::Unknown => Some(OutputFile::AllOthers),
        _ => None,
    };
    let body = if rc.len() == 0 || error {
        BodyRoute::Skip
    } else if json_is_present(response) {
        BodyRoute::Json
    } else {
        BodyRoute::NotJson
    };
    StorePlan { line, status_file, body }
}

/// Where the line of a JSON body goes once writing it to the JSON lines
/// file succeeded or failed.
pub fn after_jsonl_write(written: bool) -> (file: OutputFile)
    ensures
        file == (if written {
            OutputFile::OkValid
        } else {
            OutputFile::OkNotValid
        }),
{
    if written {
        OutputFile::OkValid
    } else {
        OutputFile::OkNotValid
    }
}

/// The patterns a matching run uses: the campaign's own, or the configured
/// ones when it has none.
pub fn campaign_patterns<'a>(own: &'a Vec<String>, configured: &'a Vec<String>) -> (p: &'a Vec<String>)
    ensures
        p == (if own.len() > 0 {
            own
        } else {
            configured
        }),
{
    if own.len() > 0 {
        own
    } else {
        configured
    }
}

/// Whether the patterns match one of the texts (each text tried on its own).
pub open spec fn any_text_matches(patterns: Seq<Seq<char>>, texts: Seq<Seq<char>>) -> bool {
    exists|i: int| 0 <= i < texts.len() && regex_set_matches(patterns, #[trigger] texts[i])
}

/// The line a matching run writes to the campaign's `valid/links.txt` for
/// one result: no line for an empty body, an error report or a page that
/// does not match. A named campaign tries the patterns on the whole body; an
/// unnamed one on the text of each content element of the page, one at a
/// time. The outer `None`: the content selector is refused.
pub open spec fn match_line_spec(
    link: Seq<char>,
    response: Seq<char>,
    named: bool,
    patterns: Seq<Seq<char>>,
) -> Option<Option<Seq<char>>> {
    if response.len() == 0 || is_error_report(response) {
        Some(None)
    } else if named {
        Some(
            if regex_set_matches(patterns, response) {
                Some(link + seq!['\n'])
            } else {
                None
            },
        )
    } else {
        match content_texts_spec(response) {
            Some(texts) => Some(
                if any_text_matches(patterns, texts) {
                    Some(link + seq!['\n'])
                } else {
                    None
                },
            ),
            None => None,
        }
    }
}

/// Decides whether one crawl result of a matching run is a hit, and the
/// line to write for it.
pub fn match_line(link: &str, response: &str, named: bool, patterns: &PatternSet) -> (line: Result<
    Option<String>,
    SelectorRefused,
>)
    ensures
        match match_line_spec(link@, response@, named, patterns.patterns()) {
            Some(Some(l)) => line matches Ok(Some(s)) && s@ == l,
            Some(None) => line matches Ok(None),
            None => line is Err,
        },
{
    let rc = chars_of(response);
    let marker = chars_of("- error ");
    if rc.len() == 0 || starts_with(rc.as_slice(), marker.as_slice()) {
        return Ok(None);
    }
    let matched = if named {
        patterns.is_match(response)
    } else {
        let texts = match content_texts(response) {
            Ok(t) => t,
            Err(e) => {
                return Err(e);
            },
        };
        let ghost tv = texts.deep_view();
        let mut found = false;
        let mut i: usize = 0;
        while i < texts.len() && !found
            invariant
                i <= texts.len(),
                tv == texts.deep_view(),
                found ==> i < texts.len(),
                !found ==> forall|j: int|
                    0 <= j < i ==> !regex_set_matches(patterns.patterns(), #[trigger] tv[j]),
                found ==> any_text_matches(patterns.patterns(), tv),
            decreases texts.len() - i + (if found {
                0int
            } else {
                1int
            }),
        {
            assert(tv[i as int] == texts[i as int]@);
            if patterns.is_match(texts[i].as_str()) {
                found = true;
            } else {
                i = i + 1;
            }
        }
        found
    };
    if matched {
        let mut line = String::from_str(link);
        line.push('\n');
        Ok(Some(line))
    } else {
        Ok(None)
    }
}

/// The folder of a named campaign's results.
pub fn campaign_dir(name: &str) -> (dir: String)
    ensures
        dir@ == "_engines_/campaigns/"@ + name@,
{
    let mut dir = String::from_str("_engines_/campaigns/");
    dir.append(name);
    dir
}

/// The folder of a campaign's hits and the file they are written to.
pub fn valid_links_paths(dir: &str) -> (paths: (String, String))
    ensures
        paths.0@ == dir@ + "/valid"@,
        paths.1@ == dir@ + "/valid"@ + "/links.txt"@,
{
    let mut valid = String::from_str(dir);
    valid.append("/valid");
    let mut links = valid.clone();
    links.append("/links.txt");
    (valid, links)
}

/// A matching run of an unnamed campaign counts a page as a hit as soon as
/// any one of its content elements, at whatever position, has text that the
/// patterns match; then the link is written.
pub proof fn law_unnamed_hit_on_any_element(
    link: Seq<char>,
    response: Seq<char>,
    patterns: Seq<Seq<char>>,
    texts: Seq<Seq<char>>,
    i: int,
)
    requires
        response.len() > 0,
        !is_error_report(response),
        content_texts_spec(response) == Some(texts),
        0 <= i < texts.len(),
        regex_set_matches(patterns, texts[i]),
    ensures
        match_line_spec(link, response, false, patterns) == Some(Some(link + seq!['\n'])),
{
}

/// A page of an unnamed campaign none of whose content elements has text
/// that the patterns match writes no line.
pub proof fn law_unnamed_miss_on_no_element(
    link: Seq<char>,
    response: Seq<char>,
    patterns: Seq<Seq<char>>,
    texts: Seq<Seq<char>>,
)
    requires
        content_texts_spec(response) == Some(texts),
        forall|i: int| 0 <= i < texts.len() ==> !regex_set_matches(patterns, #[trigger] texts[i]),
    ensures
        match_line_spec(link, response, false, patterns) == Some(None::<Seq<char>>),
{
}

/// A named campaign tries its patterns on the whole body, whatever the
/// content elements hold: a match writes the link, a miss writes nothing,
/// and the content selector plays no part.
pub proof fn law_named_reads_whole_body(link: Seq<char>, response: Seq<char>, patterns: Seq<Seq<char>>)
    requires
        response.len() > 0,
        !is_error_report(response),
    ensures
        regex_set_matches(patterns, response) ==> match_line_spec(link, response, true, patterns)
            == Some(Some(link + seq!['\n'])),
        !regex_set_matches(patterns, response) ==> match_line_spec(link, response, true, patterns)
            == Some(None::<Seq<char>>),
{
}

} // verus!
