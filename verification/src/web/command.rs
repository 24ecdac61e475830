use crate::text::{chars_eq_str, chars_of, is_trim_of, lemma_trim_unique, string_of, trim};
use vstd::prelude::*;

verus! {

/// What the panel's socket asks the server to do.
#[derive(PartialEq, Eq, Structural, Clone, Copy, Debug)]
pub enum Action {
    Stats,
    Config,
    ListEngines,
    ListFiles,
    ListFileCount,
    ListValidCampaigns,
    RunCampaign,
    RunAllCampaigns,
    CreateEngine,
    RemoveEngine,
    RemoveFile,
    SetList,
    SetBuffer,
    SetProxy,
    SetLicense,
    Loop,
}

/// `s` with white space trimmed at both ends, as `str::trim` gives it.
pub open spec fn trimmed(s: Seq<char>) -> Seq<char> {
    choose|t: Seq<char>| is_trim_of(s, t)
}

/// Index of the first space in `s`, if there is one.
pub open spec fn first_space(s: Seq<char>, i: int) -> bool {
    0 <= i < s.len() && s[i] == ' ' && forall|j: int| 0 <= j < i ==> s[j] != ' '
}

/// The word of a message: what precedes its first space (all of it when it
/// has none).
pub open spec fn command_word(ms: Seq<char>) -> Seq<char> {
    if exists|i: int| first_space(ms, i) {
        ms.take(choose|i: int| first_space(ms, i))
    } else {
        ms
    }
}

/// The argument of a message: what follows its first space (nothing when it
/// has none).
pub open spec fn command_argument(ms: Seq<char>) -> Seq<char> {
    if exists|i: int| first_space(ms, i) {
        ms.skip((choose|i: int| first_space(ms, i)) + 1)
    } else {
        Seq::empty()
    }
}

/// The first space is unique.
proof fn lemma_first_space_unique(s: Seq<char>, i: int, k: int)
    requires
        first_space(s, i),
        first_space(s, k),
    ensures
        i == k,
{
}

/// Splits `ms` at its first space into the word before it and the text
/// after it.
pub fn split_first_space(ms: &[char]) -> (r: (Vec<char>, Vec<char>))
    ensures
        r.0@ == command_word(ms@),
        r.1@ == command_argument(ms@),
        (exists|i: int| first_space(ms@, i)) ==> ms@ == r.0@ + seq![' '] + r.1@,
{
    let mut s: Vec<char> = Vec::new();
    let mut ss: Vec<char> = Vec::new();
    let mut p1 = false;
    let mut pos: usize = 0;
    let mut i: usize = 0;
    while i < ms.len()
        invariant
            i <= ms.len(),
            !p1 ==> s@ == ms@.take(i as int) && ss@.len() == 0 && forall|j: int|
                0 <= j < i ==> ms@[j] != ' ',
            p1 ==> first_space(ms@, pos as int) && pos < i && s@ == ms@.take(pos as int) && ss@
                == ms@.subrange(pos + 1, i as int),
        decreases ms.len() - i,
    {
        let c = ms[i];
        if !p1 && c == ' ' {
            p1 = true;
            pos = i;
            assert(ss@ =~= ms@.subrange(pos + 1, i + 1));
        } else if !p1 {
            s.push(c);
            assert(s@ =~= ms@.take(i + 1));
        } else {
            ss.push(c);
            assert(ss@ =~= ms@.subrange(pos + 1, i + 1));
        }
        i = i + 1;
    }
    proof {
        if p1 {
            let k = choose|k: int| first_space(ms@, k);
            lemma_first_space_unique(ms@, pos as int, k);
            assert(ms@.subrange(pos + 1, ms.len() as int) =~= ms@.skip(pos + 1));
            assert(ms@ =~= s@ + seq![' '] + ss@);
        } else {
            assert(!exists|k: int| first_space(ms@, k));
            assert(ms@.take(ms.len() as int) =~= ms@);
        }
    }
    (s, ss)
}

/// What a socket message asks for: its trimmed text split at the first
/// space into a command word and an argument, the word naming the action.
pub open spec fn command_spec(txt: Seq<char>) -> Option<(Action, Seq<char>)> {
    let ms = trimmed(txt);
    let c = command_word(ms);
    let cc = command_argument(ms);
    if c == "feed"@ {
        Some((Action::Stats, Seq::empty()))
    } else if c == "config"@ {
        Some((Action::Config, cc))
    } else if c == "run-campaign"@ {
        Some((Action::RunCampaign, cc))
    } else if c == "set-list"@ {
        Some((Action::SetList, cc))
    } else if c == "set-license"@ {
        Some((Action::SetLicense, cc))
    } else if c == "set-buffer"@ {
        Some((Action::SetBuffer, cc))
    } else if c == "set-proxy"@ {
        Some((Action::SetProxy, cc))
    } else if c == "delete-file"@ {
        Some((Action::RemoveFile, cc))
    } else if ms == "run-all-campaigns"@ {
        Some((Action::RunAllCampaigns, Seq::empty()))
    } else if c == "list-campaign-stats"@ {
        Some((Action::ListValidCampaigns, Seq::empty()))
    } else if c == "list-engines"@ {
        Some((Action::ListEngines, Seq::empty()))
    } else if c == "list-files"@ {
        Some((Action::ListFiles, Seq::empty()))
    } else if c == "create-engine"@ {
        Some((Action::CreateEngine, cc))
    } else if c == "delete-engine"@ {
        Some((Action::RemoveEngine, cc))
    } else if c == "list-totals"@ {
        Some((Action::ListFileCount, cc))
    } else {
        None
    }
}

/// Reads a socket message of the panel: the action it asks for and its
/// argument (for `create-engine`, the engine description to decode), or
/// `None` when the message names no action.
pub fn parse_command(txt: &str) -> (r: Option<(Action, String)>)
    ensures
        match command_spec(txt@) {
            None => r is None,
            Some((a, arg)) => r matches Some((ra, rarg)) && ra == a && rarg@ == arg,
        },
{
    let raw = chars_of(txt);
    let ms = trim(raw.as_slice());
    proof {
        lemma_trim_unique(txt@, ms@, trimmed(txt@));
    }
    let (c, cc) = split_first_space(ms.as_slice());
    let w = c.as_slice();
    if chars_eq_str(w, "feed") {
        Some((Action::Stats, String::new()))
    } else if chars_eq_str(w, "config") {
        Some((Action::Config, string_of(cc.as_slice())))
    } else if chars_eq_str(w, "run-campaign") {
        Some((Action::RunCampaign, string_of(cc.as_slice())))
    } else if chars_eq_str(w, "set-list") {
        Some((Action::SetList, string_of(cc.as_slice())))
    } else if chars_eq_str(w, "set-license") {
        Some((Action::SetLicense, string_of(cc.as_slice())))
    } else if chars_eq_str(w, "set-buffer") {
        Some((Action::SetBuffer, string_of(cc.as_slice())))
    } else if chars_eq_str(w, "set-proxy") {
        Some((Action::SetProxy, string_of(cc.as_slice())))
    } else if chars_eq_str(w, "delete-file") {
        Some((Action::RemoveFile, string_of(cc.as_slice())))
    } else if chars_eq_str(ms.as_slice(), "run-all-campaigns") {
        Some((Action::RunAllCampaigns, String::new()))
    } else if chars_eq_str(w, "list-campaign-stats") {
        Some((Action::ListValidCampaigns, String::new()))
    } else if chars_eq_str(w, "list-engines") {
        Some((Action::ListEngines, String::new()))
    } else if chars_eq_str(w, "list-files") {
        Some((Action::ListFiles, String::new()))
    } else if chars_eq_str(w, "create-engine") {
        Some((Action::CreateEngine, string_of(cc.as_slice())))
    } else if chars_eq_str(w, "delete-engine") {
        Some((Action::RemoveEngine, string_of(cc.as_slice())))
    } else if chars_eq_str(w, "list-totals") {
        Some((Action::ListFileCount, string_of(cc.as_slice())))
    } else {
        None
    }
}

/// Distinct command words never ask for the same action: two messages that
/// ask for one action (other than running every campaign, which is asked by
/// the whole message) have the same command word.
pub proof fn law_one_word_per_action(t1: Seq<char>, t2: Seq<char>)
    requires
        command_spec(t1) is Some,
        command_spec(t2) is Some,
        command_spec(t1).unwrap().0 == command_spec(t2).unwrap().0,
        command_spec(t1).unwrap().0 != Action::RunAllCampaigns,
    ensures
        command_word(trimmed(t1)) == command_word(trimmed(t2)),
{
}

/// Each command word asks for its own action, with the text after the first
/// space as argument where the action takes one.
pub proof fn law_command_words(txt: Seq<char>)
    ensures
        ({
            let ms = trimmed(txt);
            let c = command_word(ms);
            let cc = command_argument(ms);
            &&& c == "feed"@ ==> command_spec(txt) == Some((Action::Stats, Seq::<char>::empty()))
            &&& c == "config"@ ==> command_spec(txt) == Some((Action::Config, cc))
            &&& c == "run-campaign"@ ==> command_spec(txt) == Some((Action::RunCampaign, cc))
            &&& c == "set-list"@ ==> command_spec(txt) == Some((Action::SetList, cc))
            &&& c == "set-license"@ ==> command_spec(txt) == Some((Action::SetLicense, cc))
            &&& c == "set-buffer"@ ==> command_spec(txt) == Some((Action::SetBuffer, cc))
            &&& c == "set-proxy"@ ==> command_spec(txt) == Some((Action::SetProxy, cc))
            &&& c == "delete-file"@ ==> command_spec(txt) == Some((Action::RemoveFile, cc))
            &&& ms == "run-all-campaigns"@ ==> command_spec(txt) == Some(
                (Action::RunAllCampaigns, Seq::<char>::empty()),
            )
            &&& c == "list-campaign-stats"@ ==> command_spec(txt) == Some(
                (Action::ListValidCampaigns, Seq::<char>::empty()),
            )
            &&& c == "list-engines"@ ==> command_spec(txt) == Some(
                (Action::ListEngines, Seq::<char>::empty()),
            )
            &&& c == "list-files"@ ==> command_spec(txt) == Some(
                (Action::ListFiles, Seq::<char>::empty()),
            )
            &&& c == "create-engine"@ ==> command_spec(txt) == Some((Action::CreateEngine, cc))
            &&& c == "delete-engine"@ ==> command_spec(txt) == Some((Action::RemoveEngine, cc))
            &&& c == "list-totals"@ ==> command_spec(txt) == Some((Action::ListFileCount, cc))
        }),
{
    reveal_strlit("feed");
    assert("feed"@.len() == 4 && "feed"@[0] == 'f');
    reveal_strlit("config");
    assert("config"@.len() == 6 && "config"@[0] == 'c');
    reveal_strlit("run-campaign");
    assert("run-campaign"@.len() == 12 && "run-campaign"@[0] == 'r');
    reveal_strlit("set-list");
    assert("set-list"@.len() == 8 && "set-list"@[0] == 's');
    reveal_strlit("set-license");
    assert("set-license"@.len() == 11 && "set-license"@[0] == 's');
    reveal_strlit("set-buffer");
    assert("set-buffer"@.len() == 10 && "set-buffer"@[0] == 's');
    reveal_strlit("set-proxy");
    assert("set-proxy"@.len() == 9 && "set-proxy"@[0] == 's');
    reveal_strlit("delete-file");
    assert("delete-file"@.len() == 11 && "delete-file"@[0] == 'd');
    reveal_strlit("run-all-campaigns");
    assert("run-all-campaigns"@.len() == 17 && "run-all-campaigns"@[0] == 'r');
    reveal_strlit("list-campaign-stats");
    assert("list-campaign-stats"@.len() == 19 && "list-campaign-stats"@[0] == 'l');
    reveal_strlit("list-engines");
    assert("list-engines"@.len() == 12 && "list-engines"@[0] == 'l');
    reveal_strlit("list-files");
    assert("list-files"@.len() == 10 && "list-files"@[0] == 'l');
    reveal_strlit("create-engine");
    assert("create-engine"@.len() == 13 && "create-engine"@[0] == 'c');
    reveal_strlit("delete-engine");
    assert("delete-engine"@.len() == 13 && "delete-engine"@[0] == 'd');
    reveal_strlit("list-totals");
    assert("list-totals"@.len() == 11 && "list-totals"@[0] == 'l');
    let ms = trimmed(txt);
    let c = command_word(ms);
    // a message with no space is its own word; `run-all-campaigns` holds no
    // space, so a message equal to it has it as its word
    if ms == "run-all-campaigns"@ {
        assert(!exists|i: int| first_space(ms, i));
        assert(c == ms);
    }
}

} // verus!
