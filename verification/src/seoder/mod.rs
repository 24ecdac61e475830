//! The campaign crawler: it fetches pages for each campaign path and sorts
//! every link into the campaign's valid, invalid and error lists by whether
//! the page matches the campaign's patterns.
pub mod configuration;
pub mod fs;
pub mod utils;
pub mod website;

pub use crate::jsoncrawler::crawl_targets;
use vstd::prelude::*;

verus! {

/// determine action
#[derive(PartialEq, Eq, Structural, Clone, Copy, Debug)]
pub enum Handler {
    Start,
    Pause,
    Shutdown,
    Resume,
}

/// file output determination of a fetched page
#[derive(PartialEq, Eq, Structural, Clone, Copy, Debug)]
pub enum ResponseOutFileType {
    /// the page came back and was read
    Valid,
    /// the page came back but its body could not be read
    Invalid,
    /// the request failed
    Error,
    /// the page came back with a status other than OK
    Unknown,
}

/// The program's folders and files under the user's data directory:
/// engines, files, `config.txt`, and the program folder itself.
pub fn entry_program(data_dir: &str) -> (paths: (String, String, String, String))
    ensures
        paths.0@ == data_dir@ + "/seoder/engines/"@,
        paths.1@ == data_dir@ + "/seoder/files/"@,
        paths.2@ == data_dir@ + "/seoder/config.txt"@,
        paths.3@ == data_dir@ + "/seoder/"@,
{
    let mut engines = String::from_str(data_dir);
    engines.append("/seoder/engines/");
    let mut files = String::from_str(data_dir);
    files.append("/seoder/files/");
    let mut config = String::from_str(data_dir);
    config.append("/seoder/config.txt");
    let mut base = String::from_str(data_dir);
    base.append("/seoder/");
    (engines, files, config, base)
}

/// Where a first run copies the sample list of sites: `urls-input.txt` in
/// the files folder.
pub fn bootstrap_input_path(files_dir: &str) -> (path: String)
    ensures
        path@ == files_dir@ + "urls-input.txt"@,
{
    let mut path = String::from_str(files_dir);
    path.append("urls-input.txt");
    path
}

} // verus!
