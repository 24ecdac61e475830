use super::config_file::fields;
use crate::text::{chars_eq_str, chars_of, join, join_spec, parse_bool, parse_bool_spec, split_chars, split_spec, string_of, views};
use vstd::prelude::*;

verus! {

/// The value of a config line for the engine builder: its fields after the
/// first, joined again with single spaces.
pub open spec fn build_query_spec(hh: Seq<Seq<char>>) -> Seq<char> {
    join_spec(hh.skip(1), " "@)
}

/// The value of a config line: its fields after the first, joined with
/// single spaces.
pub fn build_query(hh: &Vec<Vec<char>>) -> (value: String)
    requires
        hh.len() >= 1,
    ensures
        value@ == build_query_spec(views(hh@)),
{
    let mut rest: Vec<String> = Vec::new();
    let mut i: usize = 1;
    while i < hh.len()
        invariant
            1 <= i <= hh.len(),
            rest.deep_view() == views(hh@).subrange(1, i as int),
        decreases hh.len() - i,
    {
        let ghost before = rest.deep_view();
        let piece = string_of(hh[i].as_slice());
        assert(piece@ == views(hh@)[i as int]);
        rest.push(piece);
        assert(rest.deep_view() =~= before.push(piece@));
        assert(rest.deep_view() =~= views(hh@).subrange(1, i + 1));
        i = i + 1;
    }
    assert(views(hh@).subrange(1, hh.len() as int) =~= views(hh@).skip(1));
    join(&rest, " ")
}

/// Whether an engine matches on page source, after the lines of its
/// `config.txt`: the last `source` line with a value decides (a value that
/// is no boolean counts as `false`); `true` without one.
pub open spec fn source_fold(lines: Seq<Seq<char>>) -> bool
    decreases lines.len(),
{
    if lines.len() == 0 {
        true
    } else {
        let hh = fields(lines.last());
        if hh.len() >= 2 && hh[0] == "source"@ {
            match parse_bool_spec(build_query_spec(hh)) {
                Some(b) => b,
                None => false,
            }
        } else {
            source_fold(lines.drop_last())
        }
    }
}

/// Whether an engine matches on page source, from the lines of its
/// `config.txt`.
pub fn engine_source_match(lines: &Vec<String>) -> (source: bool)
    ensures
        source == source_fold(lines.deep_view()),
{
    let mut source = true;
    let mut i: usize = 0;
    while i < lines.len()
        invariant
            i <= lines.len(),
            source == source_fold(lines.deep_view().take(i as int)),
        decreases lines.len() - i,
    {
        assert(lines.deep_view().take(i + 1).drop_last() =~= lines.deep_view().take(i as int));
        assert(lines.deep_view().take(i + 1).last() == lines[i as int]@);
        let cs = chars_of(lines[i].as_str());
        let hh = split_chars(&cs, ' ');
        proof {
            crate::text::lemma_split_nonempty(cs@, ' ');
        }
        if hh.len() >= 2 {
            assert(views(hh@)[0] == hh[0]@);
            if chars_eq_str(hh[0].as_slice(), "source") {
                let h1 = build_query(&hh);
                let h1c = chars_of(h1.as_str());
                source = match parse_bool(h1c.as_slice()) {
                    Some(b) => b,
                    None => false,
                };
            }
        }
        i = i + 1;
    }
    assert(lines.deep_view().take(lines.len() as int) =~= lines.deep_view());
    source
}

/// A named component of a Unix path: a piece between `/`s that is neither
/// empty (repeated and trailing separators, the root) nor `.`.
pub open spec fn named_piece(p: Seq<char>) -> bool {
    p.len() > 0 && p != seq!['.']
}

/// The named pieces among `pieces`, in order.
pub open spec fn named_pieces(pieces: Seq<Seq<char>>) -> Seq<Seq<char>> {
    pieces.filter(|p: Seq<char>| named_piece(p))
}

/// The named components of a Unix path, as `std::path::Path::components`
/// documents them: the `/`-separated pieces without empty pieces and
/// without `.` pieces.
pub open spec fn path_pieces(path: Seq<char>) -> Seq<Seq<char>> {
    named_pieces(split_spec(path, '/'))
}

/// The final component of a Unix path, as `std::path::Path::file_name`
/// documents it: the last named component, or `None` when there is none
/// (an empty path, `/`, `.`) or it is `..`.
pub open spec fn path_file_name(path: Seq<char>) -> Option<Seq<char>> {
    let pieces = path_pieces(path);
    if pieces.len() == 0 || pieces.last() == seq!['.', '.'] {
        None
    } else {
        Some(pieces.last())
    }
}

/// The final component of a Unix path, as `Path::file_name` gives it.
pub fn file_name_of(path: &str) -> (name: Option<String>)
    ensures
        match name {
            Some(n) => path_file_name(path@) == Some(n@),
            None => path_file_name(path@) is None,
        },
{
    let cs = chars_of(path);
    let pieces = split_chars(&cs, '/');
    let ghost ps = views(pieces@);
    let mut last: Option<usize> = None;
    let mut i: usize = 0;
    while i < pieces.len()
        invariant
            i <= pieces.len(),
            ps == views(pieces@),
            ps.len() == pieces.len(),
            match last {
                None => named_pieces(ps.take(i as int)).len() == 0,
                Some(k) => k < i && named_pieces(ps.take(i as int)).len() > 0 && named_pieces(
                    ps.take(i as int),
                ).last() == ps[k as int],
            },
        decreases pieces.len() - i,
    {
        proof {
            reveal(Seq::filter);
            assert(ps.take(i + 1).drop_last() =~= ps.take(i as int));
            assert(ps.take(i + 1).last() == ps[i as int]);
            assert(ps[i as int] == pieces[i as int]@);
        }
        let named = pieces[i].len() > 0 && !(pieces[i].len() == 1 && pieces[i][0] == '.');
        proof {
            if pieces[i as int]@.len() == 1 && pieces[i as int]@[0] == '.' {
                assert(pieces[i as int]@ =~= seq!['.']);
            }
            assert(named == named_piece(ps[i as int]));
        }
        if named {
            last = Some(i);
        }
        i = i + 1;
    }
    proof {
        assert(ps.take(pieces.len() as int) =~= ps);
        assert(ps == split_spec(path@, '/'));
    }
    match last {
        None => None,
        Some(k) => {
            let p = &pieces[k];
            let dots = p.len() == 2 && p[0] == '.' && p[1] == '.';
            proof {
                assert(ps[k as int] == p@);
                if p@.len() == 2 && p@[0] == '.' && p@[1] == '.' {
                    assert(p@ =~= seq!['.', '.']);
                }
            }
            if dots {
                None
            } else {
                Some(string_of(p.as_slice()))
            }
        },
    }
}

/// The list of sites an engine run reads, after the lines of the program's
/// `config.txt`: the file name of the last `target` line's value;
/// `urls-input.txt` without one; `None` when a `target` value has no file
/// name.
pub open spec fn target_fold(lines: Seq<Seq<char>>) -> Option<Seq<char>>
    decreases lines.len(),
{
    if lines.len() == 0 {
        Some("urls-input.txt"@)
    } else {
        let before = target_fold(lines.drop_last());
        let hh = fields(lines.last());
        if before is None {
            None
        } else if hh.len() >= 2 && hh[0] == "target"@ {
            path_file_name(build_query_spec(hh))
        } else {
            before
        }
    }
}

/// The list of sites an engine run reads, from the lines of the program's
/// `config.txt`, or `None` when a `target` value names no file.
pub fn engine_target(lines: &Vec<String>) -> (target: Option<String>)
    ensures
        match target {
            Some(t) => target_fold(lines.deep_view()) == Some(t@),
            None => target_fold(lines.deep_view()) is None,
        },
{
    let mut target = String::from_str("urls-input.txt");
    let mut i: usize = 0;
    while i < lines.len()
        invariant
            i <= lines.len(),
            target_fold(lines.deep_view().take(i as int)) == Some(target@),
        decreases lines.len() - i,
    {
        assert(lines.deep_view().take(i + 1).drop_last() =~= lines.deep_view().take(i as int));
        assert(lines.deep_view().take(i + 1).last() == lines[i as int]@);
        let cs = chars_of(lines[i].as_str());
        let hh = split_chars(&cs, ' ');
        proof {
            crate::text::lemma_split_nonempty(cs@, ' ');
        }
        if hh.len() >= 2 {
            assert(views(hh@)[0] == hh[0]@);
            if chars_eq_str(hh[0].as_slice(), "target") {
                let h1 = build_query(&hh);
                match file_name_of(h1.as_str()) {
                    Some(name) => {
                        target = name;
                    },
                    None => {
                        proof {
                            lemma_target_stays_none(lines.deep_view(), i as int + 1);
                        }
                        return None;
                    },
                }
            }
        }
        i = i + 1;
    }
    assert(lines.deep_view().take(lines.len() as int) =~= lines.deep_view());
    Some(target)
}

/// Once a `target` line names no file, no later line changes that.
proof fn lemma_target_stays_none(lines: Seq<Seq<char>>, k: int)
    requires
        0 <= k <= lines.len(),
        target_fold(lines.take(k)) is None,
    ensures
        target_fold(lines) is None,
    decreases lines.len() - k,
{
    if k < lines.len() {
        assert(lines.take(k + 1).drop_last() =~= lines.take(k));
        lemma_target_stays_none(lines, k + 1);
    } else {
        assert(lines.take(k) =~= lines);
    }
}

/// The files of an engine under the engines folder: its paths, its
/// patterns and its own `config.txt`.
pub fn engine_files(engines_dir: &str, engine: &str) -> (files: (String, String, String))
    ensures
        files.0@ == engines_dir@ + engine@ + "/paths.txt"@,
        files.1@ == engines_dir@ + engine@ + "/patterns.txt"@,
        files.2@ == engines_dir@ + engine@ + "/config.txt"@,
{
    let mut paths = String::from_str(engines_dir);
    paths.append(engine);
    let mut patterns = paths.clone();
    let mut config = paths.clone();
    paths.append("/paths.txt");
    patterns.append("/patterns.txt");
    config.append("/config.txt");
    (paths, patterns, config)
}

} // verus!
