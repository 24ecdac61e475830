//! The JSON crawler: it reads a list of sites, asks each for its WordPress
//! REST listing, and files every site by what came back.
pub mod configuration;
pub mod fs;
pub mod website;

use vstd::prelude::*;

verus! {

/// file output determination
#[derive(PartialEq, Eq, Structural, Clone, Copy, Debug)]
pub enum JsonOutFileType {
    /// response is ok and valid - ok-valid_json.txt
    Valid,
    /// response is ok but not valid - ok-not_valid_json.txt
    Invalid,
    /// response connection error and not valid - connection_error.txt
    Error,
    /// response returned unknown status code - all-others.txt
    Unknown,
}

/// The inputs that a crawl run covers for the program arguments `args`:
/// every argument after the program's own name, or `urls-input.txt` when
/// there is none.
pub open spec fn crawl_targets_spec(args: Seq<Seq<char>>) -> Seq<Seq<char>> {
    if args.len() >= 2 {
        args.skip(1)
    } else {
        seq!["urls-input.txt"@]
    }
}

/// The list files that `crawl` runs a website crawl on, in order.
pub fn crawl_targets(args: &Vec<String>) -> (targets: Vec<String>)
    ensures
        targets.deep_view() == crawl_targets_spec(args.deep_view()),
{
    let mut targets: Vec<String> = Vec::new();
    if args.len() >= 2 {
        let mut i: usize = 1;
        while i < args.len()
            invariant
                1 <= i <= args.len(),
                targets.deep_view() == args.deep_view().subrange(1, i as int),
            decreases args.len() - i,
        {
            let ghost before = targets.deep_view();
            targets.push(args[i].clone());
            assert(targets.deep_view() =~= before.push(args[i as int]@));
            assert(targets.deep_view() =~= args.deep_view().subrange(1, i + 1));
            i = i + 1;
        }
        assert(args.deep_view().subrange(1, args.len() as int) =~= args.deep_view().skip(1));
    } else {
        targets.push(String::from_str("urls-input.txt"));
        assert(targets.deep_view() =~= seq!["urls-input.txt"@]);
    }
    targets
}

} // verus!
