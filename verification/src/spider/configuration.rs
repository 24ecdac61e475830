use vstd::prelude::*;

verus! {

/// Structure to configure `Website` crawler
pub struct Configuration {
    /// User-Agent
    pub user_agent: String,
    /// Polite crawling delay in milli seconds.
    pub delay: u64,
}

impl Configuration {
    /// Represents crawl configuration for a website: no user agent and a
    /// polite delay of 250 milliseconds.
    pub fn new() -> (c: Self)
        ensures
            c.user_agent@ == Seq::<char>::empty(),
            c.delay == 250,
    {
        Configuration { user_agent: String::new(), delay: 250 }
    }
}

} // verus!
