use crate::jsoncrawler::fs::is_error_report;
use crate::content::{content_texts, content_texts_spec, SelectorRefused};
use crate::outside::regex_set_matches;
use crate::text::{chars_of, join, join_spec, starts_with};
use crate::patterns::PatternSet;
use vstd::prelude::*;

verus! {

/// The list of a campaign run that a link goes to.
#[derive(PartialEq, Eq, Structural, Clone, Copy, Debug)]
pub enum MatchTarget {
    /// `valid/links.txt`: the page matches.
    Valid,
    /// `invalid/links.txt`: the page does not match.
    Invalid,
    /// `errors/links.txt`: no page came back.
    Errors,
}

/// What the crawl control flag asks of the store loop.
#[derive(PartialEq, Eq, Structural, Clone, Copy, Debug)]
pub enum ControlStep {
    /// Wait a tick and look again (paused).
    Wait,
    /// Stop storing (shut down).
    Stop,
    /// Store the next result.
    Proceed,
}

/// What a reading of the crawl control flag asks of the store loop: 1
/// pauses, 2 stops, any other value lets it store the result in hand.
pub open spec fn control_of(flag: i8) -> ControlStep {
    if flag == 1 {
        ControlStep::Wait
    } else if flag == 2 {
        ControlStep::Stop
    } else {
        ControlStep::Proceed
    }
}

/// The store loop's reading of the control flag: 1 pauses, 2 stops.
pub fn control_step(flag: i8) -> (step: ControlStep)
    ensures
        step == control_of(flag),
{
    if flag == 1 {
        ControlStep::Wait
    } else if flag == 2 {
        ControlStep::Stop
    } else {
        ControlStep::Proceed
    }
}

/// The course of a store loop over the flag readings it made: how many
/// results it stored, and whether it has ended. Each reading is made with a
/// result in hand: a pause waits and reads again, a stop drops the result
/// and ends the loop, anything else stores the result; an ended loop reads
/// no more (later readings change nothing).
pub open spec fn store_run(readings: Seq<i8>) -> (nat, bool)
    decreases readings.len(),
{
    if readings.len() == 0 {
        (0, false)
    } else {
        let before = store_run(readings.drop_last());
        if before.1 {
            before
        } else {
            match control_of(readings.last()) {
                ControlStep::Wait => before,
                ControlStep::Stop => (before.0, true),
                ControlStep::Proceed => (before.0 + 1, false),
            }
        }
    }
}

/// The control side of one store loop: the flag readings it made so far.
pub struct StoreLoop {
    stopped: bool,
    readings: Ghost<Seq<i8>>,
}

impl StoreLoop {
    #[verifier::type_invariant]
    spec fn consistent(self) -> bool {
        self.stopped == store_run(self.readings@).1
    }

    /// The flag readings made so far.
    pub closed spec fn readings(self) -> Seq<i8> {
        self.readings@
    }

    /// A loop that has read nothing yet.
    pub fn new() -> (l: Self)
        ensures
            l.readings() == Seq::<i8>::empty(),
    {
        StoreLoop { stopped: false, readings: Ghost(Seq::empty()) }
    }

    /// Whether the loop has ended.
    pub fn is_stopped(&self) -> (b: bool)
        ensures
            b == store_run(self.readings()).1,
    {
        proof {
            use_type_invariant(self);
        }
        self.stopped
    }

    /// Takes one flag reading with a result in hand and says what to do
    /// with the result: wait and read again, drop it and end, or store it;
    /// an ended loop always ends.
    pub fn observe(&mut self, flag: i8) -> (step: ControlStep)
        ensures
            final(self).readings() == old(self).readings().push(flag),
            step == (if store_run(old(self).readings()).1 {
                ControlStep::Stop
            } else {
                control_of(flag)
            }),
    {
        proof {
            use_type_invariant(&*self);
        }
        let ghost before = self.readings@;
        let step = if self.stopped {
            ControlStep::Stop
        } else {
            control_step(flag)
        };
        let stopped = self.stopped || flag == 2;
        assert(before.push(flag).drop_last() =~= before);
        *self = StoreLoop { stopped, readings: Ghost(before.push(flag)) };
        step
    }
}

/// While the flag reads 1 (paused), the store loop stores nothing and goes
/// on: readings of 1 leave its course as it was.
pub proof fn law_pause_stores_nothing(readings: Seq<i8>, pauses: nat)
    ensures
        store_run(readings + Seq::new(pauses, |i: int| 1i8)) == store_run(readings),
    decreases pauses,
{
    if pauses > 0 {
        let p = Seq::new(pauses, |i: int| 1i8);
        let q = Seq::new((pauses - 1) as nat, |i: int| 1i8);
        law_pause_stores_nothing(readings, (pauses - 1) as nat);
        assert((readings + p).drop_last() =~= readings + q);
        assert((readings + p).last() == 1i8);
    }
}

/// Once the store loop has taken a result while the flag read 2 (shut
/// down), it has ended: that result and every later one stay unstored,
/// whatever the flag reads afterwards.
pub proof fn law_stop_is_final(readings: Seq<i8>, later: Seq<i8>)
    requires
        store_run(readings).1,
    ensures
        store_run(readings + later) == store_run(readings),
    decreases later.len(),
{
    if later.len() > 0 {
        law_stop_is_final(readings, later.drop_last());
        assert((readings + later).drop_last() =~= readings + later.drop_last());
    }
}

/// A reading of 2 ends a running loop without storing the result in hand;
/// any reading other than 1 and 2 stores exactly that one result.
pub proof fn law_store_steps(readings: Seq<i8>, flag: i8)
    requires
        !store_run(readings).1,
    ensures
        flag == 2 ==> store_run(readings.push(flag)) == (store_run(readings).0, true),
        flag != 1 && flag != 2 ==> store_run(readings.push(flag)) == (store_run(readings).0 + 1, false),
{
    assert(readings.push(flag).drop_last() =~= readings);
}

/// The three lists of a campaign run and their folders: valid, invalid and
/// errors under the campaign folder `e`.
pub fn run_files(e: &str) -> (paths: ((String, String), (String, String), (String, String)))
    ensures
        (paths.0).0@ == e@ + "/valid"@,
        (paths.0).1@ == e@ + "/valid"@ + "/links.txt"@,
        (paths.1).0@ == e@ + "/invalid"@,
        (paths.1).1@ == e@ + "/invalid"@ + "/links.txt"@,
        (paths.2).0@ == e@ + "/errors"@,
        (paths.2).1@ == e@ + "/errors"@ + "/links.txt"@,
{
    let mut valid = String::from_str(e);
    valid.append("/valid");
    let mut valid_links = valid.clone();
    valid_links.append("/links.txt");
    let mut invalid = String::from_str(e);
    invalid.append("/invalid");
    let mut invalid_links = invalid.clone();
    invalid_links.append("/links.txt");
    let mut errors = String::from_str(e);
    errors.append("/errors");
    let mut errors_links = errors.clone();
    errors_links.append("/links.txt");
    ((valid, valid_links), (invalid, invalid_links), (errors, errors_links))
}

/// The folder of a named campaign: the campaign's name under the engines
/// folder.
pub fn campaign_folder(engines_dir: &str, name: &str) -> (dir: String)
    ensures
        dir@ == engines_dir@ + name@,
{
    let mut dir = String::from_str(engines_dir);
    dir.append(name);
    dir
}

/// Where a campaign run files a result: errors for an empty body or an
/// error report; otherwise valid when the patterns match the body itself
/// (source matching) or the joined text of the page's content elements,
/// invalid when they do not; `None` when the content selector is refused.
pub open spec fn match_target_spec(response: Seq<char>, source_match: bool, patterns: Seq<Seq<char>>) -> Option<MatchTarget> {
    if response.len() == 0 || is_error_report(response) {
        Some(MatchTarget::Errors)
    } else if source_match {
        Some(
            if regex_set_matches(patterns, response) {
                MatchTarget::Valid
            } else {
                MatchTarget::Invalid
            },
        )
    } else {
        match content_texts_spec(response) {
            Some(texts) => Some(
                if regex_set_matches(patterns, join_spec(texts, Seq::empty())) {
                    MatchTarget::Valid
                } else {
                    MatchTarget::Invalid
                },
            ),
            None => None,
        }
    }
}

/// Files one crawl result of a campaign run, and gives the line written for
/// it: the link and a line break.
pub fn match_target(link: &str, response: &str, source_match: bool, patterns: &PatternSet) -> (r: Result<
    (MatchTarget, String),
    SelectorRefused,
>)
    ensures
        match match_target_spec(response@, source_match, patterns.patterns()) {
            Some(t) => r matches Ok((rt, line)) && rt == t && line@ == link@ + seq!['\n'],
            None => r is Err,
        },
{
    let mut line = String::from_str(link);
    line.push('\n');
    let rc = chars_of(response);
    let marker = chars_of("- error ");
    if rc.len() == 0 || starts_with(rc.as_slice(), marker.as_slice()) {
        return Ok((MatchTarget::Errors, line));
    }
    let matched = if source_match {
        patterns.is_match(response)
    } else {
        let texts = match content_texts(response) {
            Ok(t) => t,
            Err(e) => {
                return Err(e);
            },
        };
        let joined = join(&texts, "");
        proof {
            reveal_strlit("");
        }
        assert(""@ =~= Seq::<char>::empty());
        patterns.is_match(joined.as_str())
    };
    if matched {
        Ok((MatchTarget::Valid, line))
    } else {
        Ok((MatchTarget::Invalid, line))
    }
}

/// With source matching, a fetched page is filed by whether the patterns
/// match its raw body alone: valid when they do, invalid when they do not,
/// whatever the page's content elements hold (the content selector plays no
/// part, so the result is never refused).
pub proof fn law_source_match_reads_raw_body(response: Seq<char>, patterns: Seq<Seq<char>>)
    requires
        response.len() > 0,
        !is_error_report(response),
    ensures
        regex_set_matches(patterns, response) ==> match_target_spec(response, true, patterns) == Some(
            MatchTarget::Valid,
        ),
        !regex_set_matches(patterns, response) ==> match_target_spec(response, true, patterns)
            == Some(MatchTarget::Invalid),
{
}

/// Without source matching, a page is filed by whether the patterns match
/// the text of its content elements run together.
pub proof fn law_text_match_reads_joined_text(
    response: Seq<char>,
    patterns: Seq<Seq<char>>,
    texts: Seq<Seq<char>>,
)
    requires
        response.len() > 0,
        !is_error_report(response),
        content_texts_spec(response) == Some(texts),
    ensures
        match_target_spec(response, false, patterns) == Some(
            if regex_set_matches(patterns, join_spec(texts, Seq::empty())) {
                MatchTarget::Valid
            } else {
                MatchTarget::Invalid
            },
        ),
{
}

/// An empty body or an error report goes to the errors list, whatever the
/// patterns and the matching mode.
pub proof fn law_no_page_is_error(response: Seq<char>, source_match: bool, patterns: Seq<Seq<char>>)
    requires
        response.len() == 0 || is_error_report(response),
    ensures
        match_target_spec(response, source_match, patterns) == Some(MatchTarget::Errors),
{
}

} // verus!
