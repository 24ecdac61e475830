use crate::text::{chars_of, ends_with, has_suffix, remove_first, remove_first_of, string_of};
use vstd::prelude::*;

verus! {

/// `path` with the first occurrence of `base` taken out, as
/// `path.replacen(base, "", 1)` gives it.
pub fn strip_base(path: &str, base: &str) -> (name: String)
    ensures
        name@ == remove_first(path@, base@),
{
    let p = chars_of(path);
    let b = chars_of(base);
    let r = remove_first_of(p.as_slice(), b.as_slice());
    string_of(r.as_slice())
}

/// The name the panel shows for a folder: the folder's path without the
/// first occurrence of the base folder and without one leading `/`.
pub open spec fn relative_name_spec(path: Seq<char>, base: Seq<char>) -> Seq<char> {
    let d = remove_first(path, base);
    if d.len() > 0 && d[0] == '/' {
        d.drop_first()
    } else {
        d
    }
}

/// The name the panel shows for a folder under `base`.
pub fn relative_name(path: &str, base: &str) -> (name: String)
    ensures
        name@ == relative_name_spec(path@, base@),
{
    let p = chars_of(path);
    let b = chars_of(base);
    let d = remove_first_of(p.as_slice(), b.as_slice());
    if d.len() > 0 && d[0] == '/' {
        let r = string_of(&d.as_slice()[1..d.len()]);
        assert(d@.subrange(1, d@.len() as int) =~= d@.drop_first());
        r
    } else {
        string_of(d.as_slice())
    }
}

/// Whether a folder is a campaign's `valid` folder, which the listings skip.
pub fn is_valid_folder(path: &str) -> (valid: bool)
    ensures
        valid == has_suffix(path@, "/valid"@),
{
    let p = chars_of(path);
    let s = chars_of("/valid");
    ends_with(p.as_slice(), s.as_slice())
}

/// Whether a file of the files folder is a list of sites: a `.txt` file.
pub fn is_site_list(name: &str) -> (list: bool)
    ensures
        list == has_suffix(name@, ".txt"@),
{
    let p = chars_of(name);
    let s = chars_of(".txt");
    ends_with(p.as_slice(), s.as_slice())
}

/// What `list_file_count` reports for an engine folder: the engine's name
/// (the folder path without the engines folder; `default` for an empty
/// path) and the list of sites whose lines it counts (the configured target
/// in the files folder; `urls-input.txt` when none is configured).
pub open spec fn file_count_entry_spec(
    folder: Seq<char>,
    target: Seq<char>,
    engines_dir: Seq<char>,
    files_dir: Seq<char>,
) -> (Seq<char>, Seq<char>) {
    let engine = if folder.len() == 0 {
        "default"@
    } else {
        folder
    };
    let t = if target.len() == 0 {
        "urls-input.txt"@
    } else {
        target
    };
    (remove_first(engine, engines_dir), files_dir + t)
}

/// The engine name and the counted list for an engine folder.
pub fn file_count_entry(folder: &str, target: &str, engines_dir: &str, files_dir: &str) -> (entry: (
    String,
    String,
))
    ensures
        (entry.0@, entry.1@) == file_count_entry_spec(folder@, target@, engines_dir@, files_dir@),
{
    let engine = if folder.is_empty() {
        String::from_str("default")
    } else {
        String::from_str(folder)
    };
    let t = if target.is_empty() {
        String::from_str("urls-input.txt")
    } else {
        String::from_str(target)
    };
    let name = strip_base(engine.as_str(), engines_dir);
    let mut list = String::from_str(files_dir);
    list.append(t.as_str());
    (name, list)
}

} // verus!
