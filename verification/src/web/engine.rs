use crate::text::{chars_of, split_chars, split_spec, views};
use vstd::prelude::*;

verus! {

/// new engine, as the panel's `create-engine` message describes it:
/// comma-separated paths and patterns.
pub struct Eng {
    pub name: String,
    pub paths: String,
    pub patterns: String,
}

/// The text of a file written one item per line: each item followed by a
/// line break.
pub open spec fn lines_block(items: Seq<Seq<char>>) -> Seq<char>
    decreases items.len(),
{
    if items.len() == 0 {
        Seq::empty()
    } else {
        lines_block(items.drop_last()) + items.last() + seq!['\n']
    }
}

/// The text of a file that lists the comma-separated items of `list`, one
/// per line.
pub fn comma_list_block(list: &str) -> (text: String)
    ensures
        text@ == lines_block(split_spec(list@, ',')),
{
    let cs = chars_of(list);
    let items = split_chars(&cs, ',');
    let mut text = String::new();
    let mut i: usize = 0;
    while i < items.len()
        invariant
            i <= items.len(),
            views(items@) == split_spec(list@, ','),
            text@ == lines_block(views(items@).take(i as int)),
        decreases items.len() - i,
    {
        assert(views(items@).take(i + 1).drop_last() =~= views(items@).take(i as int));
        assert(views(items@).take(i + 1).last() == items[i as int]@);
        let mut k: usize = 0;
        let ghost start = text@;
        while k < items[i].len()
            invariant
                i < items.len(),
                k <= items[i as int].len(),
                text@ == start + items[i as int]@.take(k as int),
            decreases items[i as int].len() - k,
        {
            text.push(items[i][k]);
            k = k + 1;
            assert(text@ =~= start + items[i as int]@.take(k as int));
        }
        assert(items[i as int]@.take(k as int) =~= items[i as int]@);
        text.push('\n');
        i = i + 1;
    }
    assert(views(items@).take(items.len() as int) =~= views(items@));
    text
}

/// The folders and files that creating an engine makes.
pub struct EngineCreation {
    /// The engine's folder.
    pub dir: String,
    /// Its `valid` folder.
    pub valid_dir: String,
    /// Its `paths.txt`.
    pub paths_file: String,
    /// The text of `paths.txt`.
    pub paths_text: String,
    /// Its `patterns.txt`.
    pub patterns_file: String,
    /// The text of `patterns.txt`.
    pub patterns_text: String,
}

/// What creating the engine `eng` under `engines_dir` makes: nothing for an
/// engine without a name; otherwise its folder, its `valid` folder, and its
/// paths and patterns files listing the comma-separated items one per line.
pub fn engine_creation(engines_dir: &str, eng: &Eng) -> (made: Option<EngineCreation>)
    ensures
        eng.name@.len() == 0 <==> made is None,
        made matches Some(c) ==> {
            &&& c.dir@ == engines_dir@ + eng.name@
            &&& c.valid_dir@ == engines_dir@ + eng.name@ + "/valid"@
            &&& c.paths_file@ == engines_dir@ + eng.name@ + "/paths.txt"@
            &&& c.paths_text@ == lines_block(split_spec(eng.paths@, ','))
            &&& c.patterns_file@ == engines_dir@ + eng.name@ + "/patterns.txt"@
            &&& c.patterns_text@ == lines_block(split_spec(eng.patterns@, ','))
        },
{
    if eng.name.as_str().is_empty() {
        return None;
    }
    let mut dir = String::from_str(engines_dir);
    dir.append(eng.name.as_str());
    let mut valid_dir = dir.clone();
    valid_dir.append("/valid");
    let mut paths_file = dir.clone();
    paths_file.append("/paths.txt");
    let mut patterns_file = dir.clone();
    patterns_file.append("/patterns.txt");
    Some(
        EngineCreation {
            dir,
            valid_dir,
            paths_file,
            paths_text: comma_list_block(eng.paths.as_str()),
            patterns_file,
            patterns_text: comma_list_block(eng.patterns.as_str()),
        },
    )
}

} // verus!

verus! {

proof fn lemma_block_is_joined(items: Seq<Seq<char>>)
    requires
        items.len() >= 1,
    ensures
        lines_block(items) == crate::text::join_spec(items, seq!['\n']) + seq!['\n'],
    decreases items.len(),
{
    if items.len() == 1 {
        assert(lines_block(items.drop_last()) =~= Seq::<char>::empty());
        assert(lines_block(items) =~= items[0] + seq!['\n']);
    } else {
        lemma_block_is_joined(items.drop_last());
        assert(lines_block(items) =~= crate::text::join_spec(items, seq!['\n']) + seq!['\n']);
    }
}

/// Reading back a file written one item per line gives the items, when no
/// item holds a line break or ends in a carriage return: the paths and
/// patterns of a created engine read back as given.
pub proof fn law_block_read_back(items: Seq<Seq<char>>)
    requires
        items.len() >= 1,
        forall|i: int| 0 <= i < items.len() ==> !(#[trigger] items[i]).contains('\n'),
        forall|i: int|
            0 <= i < items.len() ==> crate::text::strip_cr(#[trigger] items[i]) == items[i],
    ensures
        crate::text::lines_spec(lines_block(items)) == items,
{
    lemma_block_is_joined(items);
    let j = crate::text::join_spec(items, seq!['\n']);
    crate::text::lemma_split_join(items);
    crate::text::lemma_split_concat(j, Seq::<char>::empty(), '\n');
    assert(j + seq!['\n'] + Seq::<char>::empty() =~= j + seq!['\n']);
    let p = split_spec(lines_block(items), '\n');
    assert(p == items + seq![Seq::<char>::empty()]);
    assert(crate::text::lines_spec(lines_block(items)) =~= items) by {
        assert(p.last().len() == 0);
        assert forall|i: int| 0 <= i < items.len() implies crate::text::lines_spec(
            lines_block(items),
        )[i] == items[i] by {
            assert(p[i] == items[i]);
        }
    }
}

} // verus!
