use super::configuration::Configuration;
use vstd::prelude::*;

verus! {

/// a boxed metric run, enabled if name found  is set
pub struct Campaign {
    /// campaign name
    pub name: String,
    /// custom target paths
    pub paths: Vec<String>,
    /// custom target patterns
    pub patterns: Vec<String>,
}

/// custom application engine
pub struct Engine {
    /// campaign engine conf
    pub campaign: Campaign,
}

impl Campaign {
    /// A campaign with no name, paths or patterns.
    pub fn new() -> (c: Self)
        ensures
            c.name@ == Seq::<char>::empty(),
            c.paths@.len() == 0,
            c.patterns@.len() == 0,
    {
        Campaign { name: String::new(), paths: Vec::new(), patterns: Vec::new() }
    }
}

impl Engine {
    /// An engine whose campaign is empty.
    pub fn new() -> (e: Self)
        ensures
            e.campaign.name@ == Seq::<char>::empty(),
            e.campaign.paths@.len() == 0,
            e.campaign.patterns@.len() == 0,
    {
        Engine { campaign: Campaign::new() }
    }
}

/// Represents a a web crawler for gathering links.
pub struct Website {
    /// configuration properties for website.
    pub configuration: Configuration,
    /// Path to list of files.
    pub path: String,
    /// Path to jsonl output.
    pub jsonl_output_path: String,
    /// Path to ok txt output.
    pub ok_txt_output_path: String,
    /// Path to ok txt invalid output.
    pub okv_txt_output_path: String,
    /// Path to connection error txt output.
    pub cr_txt_output_path: String,
    /// Path to all other outputs.
    pub al_txt_output_path: String,
    /// custom engine to run
    pub engine: Engine,
}

impl Website {
    /// Initialize Website object with a start link to crawl.
    pub fn new(domain: &str) -> (w: Self)
        ensures
            w.configuration.user_agent@ == Seq::<char>::empty(),
            w.path@ == domain@,
            w.jsonl_output_path@ == "output.jsonl"@,
            w.ok_txt_output_path@ == "ok-valid_json.txt"@,
            w.okv_txt_output_path@ == "ok-not_valid_json.txt"@,
            w.cr_txt_output_path@ == "connection_error.txt"@,
            w.al_txt_output_path@ == "all-others.txt"@,
            w.engine.campaign.name@ == Seq::<char>::empty(),
            w.engine.campaign.paths@.len() == 0,
            w.engine.campaign.patterns@.len() == 0,
    {
        Website {
            configuration: Configuration::new(),
            path: String::from_str(domain),
            jsonl_output_path: String::from_str("output.jsonl"),
            ok_txt_output_path: String::from_str("ok-valid_json.txt"),
            okv_txt_output_path: String::from_str("ok-not_valid_json.txt"),
            cr_txt_output_path: String::from_str("connection_error.txt"),
            al_txt_output_path: String::from_str("all-others.txt"),
            engine: Engine::new(),
        }
    }
}

} // verus!

verus! {

/// The hard limit on requests in flight: `buffer` per logical core, or
/// `None` when that product does not fit a `usize` (the unchecked product
/// overflows there).
pub open spec fn spawn_limit_spec(buffer: usize, cpus: usize) -> Option<usize> {
    if buffer * cpus <= usize::MAX {
        Some((buffer * cpus) as usize)
    } else {
        None
    }
}

/// The hard limit on requests in flight for `cpus` logical cores.
pub fn spawn_limit_for(buffer: usize, cpus: usize) -> (limit: Option<usize>)
    ensures
        limit == spawn_limit_spec(buffer, cpus),
{
    buffer.checked_mul(cpus)
}

/// The number of logical cores seen and the hard limit on requests in
/// flight that the crawl uses with the configured channel `buffer`.
pub fn spawn_limit(buffer: usize) -> (r: (usize, Option<usize>))
    ensures
        r.0 >= 1,
        r.1 == spawn_limit_spec(buffer, r.0),
{
    let cpus = crate::outside::cpu_count();
    (cpus, spawn_limit_for(buffer, cpus))
}

/// The permits of the soft lane: a quarter of the hard limit, rounded down.
pub fn soft_permits(limit: usize) -> (permits: usize)
    ensures
        permits == limit / 4,
{
    limit / 4
}

} // verus!
