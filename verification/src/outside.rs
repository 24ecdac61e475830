//! The calls that the library makes into outside crates, each with the
//! contract that the crate's documentation gives it.
use vstd::prelude::*;

verus! {

/// Whether `regex::RegexSet::new` accepts these patterns.
pub uninterp spec fn regex_set_accepts(patterns: Seq<Seq<char>>) -> bool;

/// Whether the `regex::RegexSet` built from these patterns matches somewhere
/// in `text` (`RegexSet::is_match`).
pub uninterp spec fn regex_set_matches(patterns: Seq<Seq<char>>, text: Seq<char>) -> bool;

/// `regex::RegexSet`, held by the library as it is.
#[verifier::external_type_specification]
#[verifier::external_body]
pub struct ExRegexSet(regex::RegexSet);

/// The patterns that a compiled `regex::RegexSet` was built from, in order
/// (what `RegexSet::patterns` hands back).
pub uninterp spec fn regex_set_patterns(set: regex::RegexSet) -> Seq<Seq<char>>;

/// `regex::RegexSet::new(patterns)`: the compiled set, or `None` when a
/// pattern is no valid regular expression. The claim: whether it compiles
/// depends on the patterns alone, the set keeps the patterns it was built
/// from, and a set of no patterns always compiles (`RegexSet::empty` is
/// documented as `RegexSet::new([])`).
#[verifier::external_body]
pub(crate) fn compile_regex_set(patterns: &Vec<String>) -> (set: Option<regex::RegexSet>)
    ensures
        set is None <==> !regex_set_accepts(patterns.deep_view()),
        set matches Some(s) ==> regex_set_patterns(s) == patterns.deep_view(),
        patterns.len() == 0 ==> set is Some,
{
    match regex::RegexSet::new(patterns) {
        Ok(set) => Some(set),
        Err(_) => None,
    }
}

/// `regex::RegexSet::is_match`: whether any pattern of the set matches
/// somewhere in `text`. The claim: the answer depends on the set's patterns
/// and the text alone, and a set of no patterns matches nothing, as the
/// crate documents.
#[verifier::external_body]
pub(crate) fn regex_set_is_match(set: &regex::RegexSet, text: &str) -> (found: bool)
    ensures
        found == regex_set_matches(regex_set_patterns(*set), text@),
        regex_set_patterns(*set).len() == 0 ==> !found,
{
    set.is_match(text)
}

/// The texts of the elements that the CSS selector `selector` picks in an
/// HTML document, one per element in document order, each the concatenation
/// of the element's text nodes; `None` when the selector does not parse.
pub uninterp spec fn selected_texts(selector: Seq<char>, html: Seq<char>) -> Option<Seq<Seq<char>>>;

/// `scraper::Selector::parse(selector)`, then `scraper::Html::parse_document`
/// and a selection with that selector, and `ElementRef::text` on each
/// element. The claim: the result is a function of the selector and the
/// document text alone; `None` stands for the selector's parse error.
#[verifier::external_body]
pub(crate) fn element_texts(selector: &str, html: &str) -> (texts: Option<Vec<String>>)
    ensures
        match texts {
            Some(t) => selected_texts(selector@, html@) == Some(t.deep_view()),
            None => selected_texts(selector@, html@) is None,
        },
{
    match scraper::Selector::parse(selector) {
        Ok(sel) => {
            let mut texts: Vec<String> = Vec::new();
            for element in scraper::Html::parse_document(html).select(&sel) {
                texts.push(element.text().collect::<String>());
            }
            Some(texts)
        },
        Err(_) => None,
    }
}

/// Whether `serde_json` reads `text` as a JSON value other than `null`.
pub uninterp spec fn json_value_present(text: Seq<char>) -> bool;

/// `serde_json::from_str::<Value>(text)`, with a parse error taken as
/// `null`, then `!is_null()`. The claim: the answer depends on the text
/// alone, and empty text is no JSON value (`serde_json` reports an EOF
/// error for it).
#[verifier::external_body]
pub(crate) fn json_is_present(text: &str) -> (present: bool)
    ensures
        present == json_value_present(text@),
        text@.len() == 0 ==> !present,
{
    let value: serde_json::Value = serde_json::from_str(text).unwrap_or_default();
    !value.is_null()
}

/// `ua_generator::ua::spoof_ua()`: a user agent picked at random from the
/// crate's static list, whose entries are all non-empty. The claim: the
/// agent is not empty; which one comes back is left open.
#[verifier::external_body]
pub(crate) fn spoof_user_agent() -> (agent: String)
    ensures
        agent@.len() > 0,
{
    ua_generator::ua::spoof_ua().to_string()
}

/// `num_cpus::get()`: the number of logical cores available to the process,
/// which the crate documents as always at least one.
#[verifier::external_body]
pub(crate) fn cpu_count() -> (cpus: usize)
    ensures
        cpus >= 1,
{
    num_cpus::get()
}

/// A lowercase hexadecimal digit.
pub open spec fn is_lower_hex(c: char) -> bool {
    ('0' <= c && c <= '9') || ('a' <= c && c <= 'f')
}

/// An identifier in the hyphenated form: 36 characters, lowercase
/// hexadecimal digits in groups of 8, 4, 4, 4 and 12 joined by `-`.
pub open spec fn is_hyphenated_id(s: Seq<char>) -> bool {
    &&& s.len() == 36
    &&& forall|i: int|
        0 <= i < 36 ==> if i == 8 || i == 13 || i == 18 || i == 23 {
            #[trigger] s[i] == '-'
        } else {
            is_lower_hex(s[i])
        }
}

/// `uuid::Uuid::new_v4().to_string()`: a random identifier, which the crate
/// writes in the lowercase hyphenated form. The claim: every outcome has that
/// form; which identifier comes back is left open.
#[verifier::external_body]
pub(crate) fn new_upload_id() -> (id: String)
    ensures
        is_hyphenated_id(id@),
{
    uuid::Uuid::new_v4().to_string()
}

} // verus!

verus! {

/// The string stored under `key` in the JSON object that `text` holds, if
/// `text` is a JSON object with a string there.
pub uninterp spec fn json_string_field(text: Seq<char>, key: Seq<char>) -> Option<Seq<char>>;

/// `serde_json::from_str::<Value>(text)` (a parse error taken as `null`),
/// then `get(key)` and `as_str()`. The claim: the answer depends on the text
/// and the key alone.
#[verifier::external_body]
pub(crate) fn json_text_field(text: &str, key: &str) -> (field: Option<String>)
    ensures
        match field {
            Some(f) => json_string_field(text@, key@) == Some(f@),
            None => json_string_field(text@, key@) is None,
        },
{
    let value: serde_json::Value = serde_json::from_str(text).unwrap_or_default();
    match value.get(key) {
        Some(f) => match f.as_str() {
            Some(s) => Some(s.to_string()),
            None => None,
        },
        None => None,
    }
}

} // verus!
