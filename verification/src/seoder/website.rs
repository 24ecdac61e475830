use super::configuration::Configuration;
use vstd::prelude::*;

verus! {

/// a boxed metric run, enabled if name found  is set
pub struct Campaign {
    /// campaign name
    pub name: String,
    /// custom target paths
    pub paths: Vec<String>,
    /// custom target patterns
    pub patterns: Vec<String>,
    /// look in source code to find matches
    pub source_match: bool,
}

/// custom application engine
pub struct Engine {
    /// campaign engine conf
    pub campaign: Campaign,
}

impl Campaign {
    /// A campaign with no name, paths or patterns, matching on page text.
    pub fn new() -> (c: Self)
        ensures
            c.name@ == Seq::<char>::empty(),
            c.paths@.len() == 0,
            c.patterns@.len() == 0,
            !c.source_match,
    {
        Campaign { name: String::new(), paths: Vec::new(), patterns: Vec::new(), source_match: false }
    }
}

impl Engine {
    /// An engine whose campaign is empty.
    pub fn new() -> (e: Self)
        ensures
            e.campaign.name@ == Seq::<char>::empty(),
            e.campaign.paths@.len() == 0,
            e.campaign.patterns@.len() == 0,
            !e.campaign.source_match,
    {
        Engine { campaign: Campaign::new() }
    }
}

/// Represents a a web crawler for gathering links.
pub struct Website {
    /// configuration properties for website.
    pub configuration: Configuration,
    /// Path to list of files.
    pub path: String,
    /// custom engine to run
    pub engine: Engine,
}

impl Website {
    /// Initialize Website object with a start link to crawl; an empty list
    /// name stands for `urls-input.txt`, so the path is never empty.
    pub fn new(path: &str) -> (w: Self)
        ensures
            w.path@ == (if path@.len() > 0 {
                path@
            } else {
                "urls-input.txt"@
            }),
            w.path@.len() > 0,
            w.configuration.user_agent@ == Seq::<char>::empty(),
            w.engine.campaign.name@ == Seq::<char>::empty(),
            w.engine.campaign.paths@.len() == 0,
            w.engine.campaign.patterns@.len() == 0,
            !w.engine.campaign.source_match,
    {
        proof {
            reveal_strlit("urls-input.txt");
        }
        Website {
            configuration: Configuration::new(),
            path: if path.is_empty() == false {
                String::from_str(path)
            } else {
                String::from_str("urls-input.txt")
            },
            engine: Engine::new(),
        }
    }
}

/// The hard limit on requests in flight: half the logical cores with the
/// low-buffer switch on, 33 per core otherwise; `None` when that product
/// does not fit a `usize`.
pub open spec fn spawn_limit_spec(low_buffer: bool, cpus: usize) -> Option<usize> {
    if low_buffer {
        Some((cpus / 2) as usize)
    } else if 33 * cpus <= usize::MAX {
        Some((33 * cpus) as usize)
    } else {
        None
    }
}

/// The hard limit on requests in flight for `cpus` logical cores.
pub fn spawn_limit_for(low_buffer: bool, cpus: usize) -> (limit: Option<usize>)
    ensures
        limit == spawn_limit_spec(low_buffer, cpus),
{
    if low_buffer {
        Some(cpus / 2)
    } else {
        cpus.checked_mul(33)
    }
}

/// The number of logical cores seen and the hard limit on requests in
/// flight that a campaign crawl uses.
pub fn spawn_limit(low_buffer: bool) -> (r: (usize, Option<usize>))
    ensures
        r.0 >= 1,
        r.1 == spawn_limit_spec(low_buffer, r.0),
{
    let cpus = crate::outside::cpu_count();
    (cpus, spawn_limit_for(low_buffer, cpus))
}

/// The request paths a campaign crawl asks each site for: the campaign's
/// own, else the configured ones, else the site root alone.
pub open spec fn path_names_spec(own: Seq<Seq<char>>, configured: Seq<Seq<char>>) -> Seq<Seq<char>> {
    if own.len() > 0 {
        own
    } else if configured.len() > 0 {
        configured
    } else {
        seq![Seq::<char>::empty()]
    }
}

/// The request paths of a campaign crawl.
pub fn path_names(own: &Vec<String>, configured: &Vec<String>) -> (names: Vec<String>)
    ensures
        names.deep_view() == path_names_spec(own.deep_view(), configured.deep_view()),
{
    if own.len() > 0 {
        own.clone()
    } else if configured.len() > 0 {
        configured.clone()
    } else {
        let mut names: Vec<String> = Vec::new();
        names.push(String::new());
        assert(names.deep_view() =~= seq![Seq::<char>::empty()]);
        names
    }
}

/// The list of sites a crawl reads: the website's list file in the files
/// folder.
pub fn site_list_path(files_dir: &str, path: &str) -> (p: String)
    ensures
        p@ == files_dir@ + path@,
{
    let mut p = String::from_str(files_dir);
    p.append(path);
    p
}

} // verus!

verus! {

/// The file of proxies a campaign crawl reads when proxies are on:
/// `proxies.txt` in the program folder.
pub fn proxies_path(base: &str) -> (p: String)
    ensures
        p@ == base@ + "proxies.txt"@,
{
    let mut p = String::from_str(base);
    p.append("proxies.txt");
    p
}

} // verus!
