use super::website::{Campaign, Engine};
use crate::text::{
    chars_eq_str, chars_of, decimal, decimal_string, parse_bool, parse_bool_spec,
    parse_u64, parse_unsigned, parse_usize, split_chars, split_spec, views,
};
use vstd::prelude::*;

verus! {

/// Structure to configure `Website` crawler
pub struct Configuration {
    /// User-Agent
    pub user_agent: String,
}

impl Configuration {
    /// Represents crawl configuration for a website.
    pub fn new() -> (c: Self)
        ensures
            c.user_agent@ == Seq::<char>::empty(),
    {
        Configuration { user_agent: String::new() }
    }
}

/// The code of a WordPress listing named in the config file.
pub open spec fn query_code(v: Seq<char>) -> Option<u8> {
    if v == "posts"@ {
        Some(1)
    } else if v == "pages"@ {
        Some(2)
    } else if v == "users"@ {
        Some(3)
    } else if v == "comments"@ {
        Some(4)
    } else if v == "search"@ {
        Some(5)
    } else {
        None
    }
}

/// The settings read from `config.txt` so far: listing code, timeout in
/// seconds, channel buffer, proxy switch and page limit.
pub struct ConfigState {
    pub query: u8,
    pub timeout: u64,
    pub buffer: usize,
    pub proxy: bool,
    pub page_limit: usize,
}

/// The settings before any line is read; with custom engines on, the
/// listing code is 6, which names no listing.
pub open spec fn initial_state(engine_enabled: bool) -> ConfigState {
    ConfigState {
        query: if !engine_enabled {
            1
        } else {
            6
        },
        timeout: 15,
        buffer: 100,
        proxy: false,
        page_limit: 100,
    }
}

/// The settings after one line of `config.txt`: a line of exactly two
/// space-separated fields with a non-empty value sets the key its first
/// field names; a value that does not parse gives the key its default;
/// `query` counts only without custom engines and only for a known listing.
pub open spec fn config_step(st: ConfigState, line: Seq<char>, engine_enabled: bool) -> ConfigState {
    let hh = split_spec(line, ' ');
    if hh.len() == 2 && hh[1].len() > 0 {
        let cf = hh[0];
        let v = hh[1];
        ConfigState {
            query: if !engine_enabled && cf == "query"@ && query_code(v) is Some {
                query_code(v).unwrap()
            } else {
                st.query
            },
            timeout: if cf == "timeout"@ {
                match parse_unsigned(v, u64::MAX as nat) {
                    Some(n) => n as u64,
                    None => 15,
                }
            } else {
                st.timeout
            },
            buffer: if cf == "buffer"@ {
                match parse_unsigned(v, usize::MAX as nat) {
                    Some(n) => n as usize,
                    None => 100,
                }
            } else {
                st.buffer
            },
            proxy: if cf == "proxy"@ {
                match parse_bool_spec(v) {
                    Some(b) => b,
                    None => false,
                }
            } else {
                st.proxy
            },
            page_limit: if cf == "page_limit"@ {
                match parse_unsigned(v, usize::MAX as nat) {
                    Some(n) => n as usize,
                    None => 100,
                }
            } else {
                st.page_limit
            },
        }
    } else {
        st
    }
}

/// The settings after all of `lines`, read in order.
pub open spec fn config_fold(lines: Seq<Seq<char>>, engine_enabled: bool) -> ConfigState
    decreases lines.len(),
{
    if lines.len() == 0 {
        initial_state(engine_enabled)
    } else {
        config_step(config_fold(lines.drop_last(), engine_enabled), lines.last(), engine_enabled)
    }
}

/// The name of the listing with code `q`.
pub open spec fn listing_name(q: u8) -> Seq<char> {
    if q == 1 {
        "posts"@
    } else if q == 2 {
        "pages"@
    } else if q == 3 {
        "users"@
    } else if q == 4 {
        "comments"@
    } else {
        "search"@
    }
}

/// The request path of listing `q` with `page_limit` items per page; empty
/// when `q` names no listing.
pub open spec fn query_path(q: u8, page_limit: usize) -> Seq<char> {
    if 1 <= q <= 5 {
        "/wp-json/wp/v2/"@ + listing_name(q) + "?per_page="@ + decimal(page_limit as nat)
    } else {
        Seq::empty()
    }
}

/// The non-empty lines of `lines`, in order.
pub open spec fn non_empty_lines(lines: Seq<Seq<char>>) -> Seq<Seq<char>>
    decreases lines.len(),
{
    if lines.len() == 0 {
        Seq::empty()
    } else if lines.last().len() == 0 {
        non_empty_lines(lines.drop_last())
    } else {
        non_empty_lines(lines.drop_last()).push(lines.last())
    }
}

/// The non-empty lines of a file, in order.
pub fn non_empty(lines: &Vec<String>) -> (kept: Vec<String>)
    ensures
        kept.deep_view() == non_empty_lines(lines.deep_view()),
{
    let mut kept: Vec<String> = Vec::new();
    let mut i: usize = 0;
    while i < lines.len()
        invariant
            i <= lines.len(),
            kept.deep_view() == non_empty_lines(lines.deep_view().take(i as int)),
        decreases lines.len() - i,
    {
        assert(lines.deep_view().take(i + 1).drop_last() =~= lines.deep_view().take(i as int));
        assert(lines.deep_view().take(i + 1).last() == lines[i as int]@);
        if lines[i].as_str().is_empty() == false {
            let ghost before = kept.deep_view();
            kept.push(lines[i].clone());
            assert(kept.deep_view() =~= before.push(lines[i as int]@));
        }
        i = i + 1;
    }
    assert(lines.deep_view().take(lines.len() as int) =~= lines.deep_view());
    kept
}

/// The listing code a config value names.
fn query_code_of(v: &[char]) -> (q: Option<u8>)
    ensures
        q == query_code(v@),
{
    if chars_eq_str(v, "posts") {
        Some(1)
    } else if chars_eq_str(v, "pages") {
        Some(2)
    } else if chars_eq_str(v, "users") {
        Some(3)
    } else if chars_eq_str(v, "comments") {
        Some(4)
    } else if chars_eq_str(v, "search") {
        Some(5)
    } else {
        None
    }
}

/// Reads the settings from the lines of `config.txt`.
pub fn read_config(lines: &Vec<String>, engine_enabled: bool) -> (st: ConfigState)
    ensures
        st == config_fold(lines.deep_view(), engine_enabled),
{
    let mut st = ConfigState {
        query: if !engine_enabled {
            1
        } else {
            6
        },
        timeout: 15,
        buffer: 100,
        proxy: false,
        page_limit: 100,
    };
    let mut i: usize = 0;
    while i < lines.len()
        invariant
            i <= lines.len(),
            st == config_fold(lines.deep_view().take(i as int), engine_enabled),
        decreases lines.len() - i,
    {
        assert(lines.deep_view().take(i + 1).drop_last() =~= lines.deep_view().take(i as int));
        assert(lines.deep_view().take(i + 1).last() == lines[i as int]@);
        let cs = chars_of(lines[i].as_str());
        let hh = split_chars(&cs, ' ');
        if hh.len() == 2 && hh[1].len() > 0 {
            assert(views(hh@)[0] == hh[0]@);
            assert(views(hh@)[1] == hh[1]@);
            let cf = hh[0].as_slice();
            let v = hh[1].as_slice();
            if !engine_enabled && chars_eq_str(cf, "query") {
                match query_code_of(v) {
                    Some(q) => {
                        st.query = q;
                    },
                    None => {},
                }
            }
            if chars_eq_str(cf, "timeout") {
                st.timeout = match parse_u64(v) {
                    Some(n) => n,
                    None => 15,
                };
            }
            if chars_eq_str(cf, "buffer") {
                st.buffer = match parse_usize(v) {
                    Some(n) => n,
                    None => 100,
                };
            }
            if chars_eq_str(cf, "proxy") {
                st.proxy = match parse_bool(v) {
                    Some(b) => b,
                    None => false,
                };
            }
            if chars_eq_str(cf, "page_limit") {
                st.page_limit = match parse_usize(v) {
                    Some(n) => n,
                    None => 100,
                };
            }
        }
        i = i + 1;
    }
    assert(lines.deep_view().take(lines.len() as int) =~= lines.deep_view());
    st
}

/// The request path for the listing and page limit read from the config.
pub fn build_query_path(q: u8, page_limit: usize) -> (path: String)
    ensures
        path@ == query_path(q, page_limit),
{
    if 1 <= q && q <= 5 {
        let mut path = String::new();
        path.append("/wp-json/wp/v2/");
        if q == 1 {
            path.append("posts");
        } else if q == 2 {
            path.append("pages");
        } else if q == 3 {
            path.append("users");
        } else if q == 4 {
            path.append("comments");
        } else {
            path.append("search");
        }
        path.append("?per_page=");
        let n = decimal_string(page_limit as u64);
        path.append(n.as_str());
        path
    } else {
        String::new()
    }
}

/// configure application program api path, timeout, channel buffer, and proxy:
/// the request path, the timeout in seconds, the channel buffer, the proxy
/// switch and the custom engine, from the lines of `config.txt` and, with
/// custom engines on, of the campaign's `paths.txt` and `patterns.txt`.
pub fn setup(
    engine_enabled: bool,
    config_lines: &Vec<String>,
    paths_lines: &Vec<String>,
    patterns_lines: &Vec<String>,
) -> (settings: (String, u64, usize, bool, Engine))
    ensures
        ({
            let st = config_fold(config_lines.deep_view(), engine_enabled);
            &&& settings.0@ == query_path(st.query, st.page_limit)
            &&& settings.1 == st.timeout
            &&& settings.2 == st.buffer
            &&& settings.3 == st.proxy
        }),
        settings.4.campaign.name@ == Seq::<char>::empty(),
        settings.4.campaign.paths.deep_view() == (if engine_enabled {
            non_empty_lines(paths_lines.deep_view())
        } else {
            Seq::empty()
        }),
        settings.4.campaign.patterns.deep_view() == (if engine_enabled {
            non_empty_lines(patterns_lines.deep_view())
        } else {
            Seq::empty()
        }),
{
    let st = read_config(config_lines, engine_enabled);
    let query = build_query_path(st.query, st.page_limit);
    let mut engine = Engine::new();
    if engine_enabled {
        engine = Engine {
            campaign: Campaign {
                name: String::new(),
                paths: non_empty(paths_lines),
                patterns: non_empty(patterns_lines),
            },
        };
    }
    assert(engine.campaign.paths.deep_view() =~= (if engine_enabled {
        non_empty_lines(paths_lines.deep_view())
    } else {
        Seq::empty()
    }));
    assert(engine.campaign.patterns.deep_view() =~= (if engine_enabled {
        non_empty_lines(patterns_lines.deep_view())
    } else {
        Seq::empty()
    }));
    (query, st.timeout, st.buffer, st.proxy, engine)
}

/// A `proxy` line decides the proxy switch: after it, proxies are on
/// exactly when its value is `true`, whatever came before (`false` and
/// values that do not parse turn them off).
pub proof fn law_proxy_line_sets_switch(
    lines: Seq<Seq<char>>,
    value: Seq<char>,
    engine_enabled: bool,
)
    requires
        value.len() > 0,
        !value.contains(' '),
    ensures
        config_fold(lines.push("proxy"@ + seq![' '] + value), engine_enabled).proxy == (value
            == seq!['t', 'r', 'u', 'e']),
{
    reveal_strlit("proxy");
    assert(!"proxy"@.contains(' ')) by {
        if "proxy"@.contains(' ') {
            let k = choose|k: int| 0 <= k < "proxy"@.len() && "proxy"@[k] == ' ';
        }
    }
    crate::text::lemma_split_pair("proxy"@, value, ' ');
    let l = lines.push("proxy"@ + seq![' '] + value);
    assert(l.drop_last() =~= lines);
    assert(l.last() == "proxy"@ + seq![' '] + value);
}

/// A line that is not a `proxy` line leaves the proxy switch as it was.
pub proof fn law_other_lines_keep_switch(lines: Seq<Seq<char>>, line: Seq<char>, engine_enabled: bool)
    requires
        split_spec(line, ' ').len() != 2 || split_spec(line, ' ')[0] != "proxy"@,
    ensures
        config_fold(lines.push(line), engine_enabled).proxy == config_fold(lines, engine_enabled).proxy,
{
    assert(lines.push(line).drop_last() =~= lines);
}

} // verus!
