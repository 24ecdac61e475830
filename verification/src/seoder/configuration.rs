use super::website::{Campaign, Engine};
use crate::jsoncrawler::configuration::{config_fold, non_empty, non_empty_lines, read_config};
use vstd::prelude::*;

verus! {

/// Structure to configure `Website` crawler
pub struct Configuration {
    /// User-Agent
    pub user_agent: String,
}

impl Configuration {
    /// Represents crawl configuration for a website.
    pub fn new() -> (c: Self)
        ensures
            c.user_agent@ == Seq::<char>::empty(),
    {
        Configuration { user_agent: String::new() }
    }
}

/// configure application program api path, timeout, channel buffer, and proxy:
/// an empty request path, the timeout in seconds, the channel buffer and the
/// proxy switch read from the lines of `config.txt` (the keys `timeout`,
/// `buffer` and `proxy`, read as the JSON crawler reads them), and, with
/// custom engines on, the campaign paths and patterns of the engine files.
pub fn setup(
    engine_enabled: bool,
    config_lines: &Vec<String>,
    paths_lines: &Vec<String>,
    patterns_lines: &Vec<String>,
) -> (settings: (String, u64, usize, bool, Engine))
    ensures
        settings.0@ == Seq::<char>::empty(),
        settings.1 == config_fold(config_lines.deep_view(), true).timeout,
        settings.2 == config_fold(config_lines.deep_view(), true).buffer,
        settings.3 == config_fold(config_lines.deep_view(), true).proxy,
        settings.4.campaign.name@ == Seq::<char>::empty(),
        !settings.4.campaign.source_match,
        settings.4.campaign.paths.deep_view() == (if engine_enabled {
            non_empty_lines(paths_lines.deep_view())
        } else {
            Seq::empty()
        }),
        settings.4.campaign.patterns.deep_view() == (if engine_enabled {
            non_empty_lines(patterns_lines.deep_view())
        } else {
            Seq::empty()
        }),
{
    let st = read_config(config_lines, true);
    let mut engine = Engine::new();
    if engine_enabled {
        engine = Engine {
            campaign: Campaign {
                name: String::new(),
                paths: non_empty(paths_lines),
                patterns: non_empty(patterns_lines),
                source_match: false,
            },
        };
    }
    assert(engine.campaign.paths.deep_view() =~= (if engine_enabled {
        non_empty_lines(paths_lines.deep_view())
    } else {
        Seq::empty()
    }));
    assert(engine.campaign.patterns.deep_view() =~= (if engine_enabled {
        non_empty_lines(patterns_lines.deep_view())
    } else {
        Seq::empty()
    }));
    (String::new(), st.timeout, st.buffer, st.proxy, engine)
}

} // verus!
