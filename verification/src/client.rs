//! What the crawlers build their HTTP client from: the user agent, the
//! default headers of `headers.txt` and the proxies of `proxies.txt`.
use crate::text::{chars_of, split_chars, split_spec, string_of, views};
use vstd::prelude::*;

verus! {

/// The user agent a crawler sends: the configured one, or (when none is
/// configured) one picked at random from a list of browser agents.
pub fn user_agent_for(configured: &str) -> (agent: String)
    ensures
        configured@.len() > 0 ==> agent@ == configured@,
        agent@.len() > 0,
{
    if configured.is_empty() == false {
        String::from_str(configured)
    } else {
        crate::outside::spoof_user_agent()
    }
}

/// The headers that the lines of `headers.txt` give: each line of exactly
/// two space-separated fields is a name and a value, in order; other lines
/// give none.
pub open spec fn header_pairs_spec(lines: Seq<Seq<char>>) -> Seq<(Seq<char>, Seq<char>)>
    decreases lines.len(),
{
    if lines.len() == 0 {
        Seq::empty()
    } else {
        let rest = header_pairs_spec(lines.drop_last());
        let hh = split_spec(lines.last(), ' ');
        if hh.len() == 2 {
            rest.push((hh[0], hh[1]))
        } else {
            rest
        }
    }
}

/// The header names and values given by the lines of `headers.txt`.
pub fn header_pairs(lines: &Vec<String>) -> (pairs: Vec<(String, String)>)
    ensures
        pairs.deep_view() == header_pairs_spec(lines.deep_view()),
{
    let mut pairs: Vec<(String, String)> = Vec::new();
    let mut i: usize = 0;
    while i < lines.len()
        invariant
            i <= lines.len(),
            pairs.deep_view() == header_pairs_spec(lines.deep_view().take(i as int)),
        decreases lines.len() - i,
    {
        assert(lines.deep_view().take(i + 1).drop_last() =~= lines.deep_view().take(i as int));
        assert(lines.deep_view().take(i + 1).last() == lines[i as int]@);
        let cs = chars_of(lines[i].as_str());
        let hh = split_chars(&cs, ' ');
        if hh.len() == 2 {
            assert(views(hh@)[0] == hh[0]@);
            assert(views(hh@)[1] == hh[1]@);
            let name = string_of(hh[0].as_slice());
            let value = string_of(hh[1].as_slice());
            let ghost before = pairs.deep_view();
            pairs.push((name, value));
            assert(pairs.deep_view() =~= before.push((hh[0]@, hh[1]@)));
        }
        i = i + 1;
    }
    assert(lines.deep_view().take(lines.len() as int) =~= lines.deep_view());
    pairs
}

} // verus!
