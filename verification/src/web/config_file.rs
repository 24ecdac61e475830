use crate::text::{
    chars_eq, chars_eq_str, chars_of, join, join_spec, parse_bool, parse_u16, remove_first_of,
    split_chars, split_spec, starts_with, string_of, strip_cr, views,
};
use vstd::prelude::*;

verus! {

/// The space-separated fields of a config line.
pub open spec fn fields(line: Seq<char>) -> Seq<Seq<char>> {
    split_spec(line, ' ')
}

/// What `write_config` keeps of one line of the config file: a line with at
/// least two fields becomes its first field, a space, and either `input`
/// (when the first field is `key`) or its second field; other lines are
/// dropped.
pub open spec fn rewritten_line(line: Seq<char>, key: Seq<char>, input: Seq<char>) -> Option<
    Seq<char>,
> {
    let hh = fields(line);
    if hh.len() >= 2 {
        Some(
            hh[0] + seq![' '] + if hh[0] == key {
                input
            } else {
                hh[1]
            },
        )
    } else {
        None
    }
}

/// The kept lines of `lines`, in order.
pub open spec fn rewritten_lines(lines: Seq<Seq<char>>, key: Seq<char>, input: Seq<char>) -> Seq<
    Seq<char>,
>
    decreases lines.len(),
{
    if lines.len() == 0 {
        Seq::empty()
    } else {
        let rest = rewritten_lines(lines.drop_last(), key, input);
        match rewritten_line(lines.last(), key, input) {
            Some(l) => rest.push(l),
            None => rest,
        }
    }
}

/// Some line of `lines` has at least two fields and `key` as its first.
pub open spec fn key_present(lines: Seq<Seq<char>>, key: Seq<char>) -> bool {
    exists|i: int|
        0 <= i < lines.len() && fields(#[trigger] lines[i]).len() >= 2 && fields(lines[i])[0]
            == key
}

/// The lines that `write_config` writes, or `None` when it writes nothing
/// (an empty `input`): the kept lines, followed by `key input` when no line
/// had `key` as its first field and `key` is not empty.
pub open spec fn write_config_spec(lines: Seq<Seq<char>>, key: Seq<char>, input: Seq<char>) -> Option<
    Seq<Seq<char>>,
> {
    if input.len() == 0 {
        None
    } else {
        let kept = rewritten_lines(lines, key, input);
        if !key_present(lines, key) && key.len() > 0 {
            Some(kept.push(key + seq![' '] + input))
        } else {
            Some(kept)
        }
    }
}

/// The value that `get_file_value` reads for `key`: the second field of the
/// last line that has exactly two fields and `key` as its first; empty when
/// there is none.
pub open spec fn file_value_spec(lines: Seq<Seq<char>>, key: Seq<char>) -> Seq<char>
    decreases lines.len(),
{
    if lines.len() == 0 {
        Seq::empty()
    } else {
        let hh = fields(lines.last());
        if hh.len() == 2 && hh[0] == key {
            hh[1]
        } else {
            file_value_spec(lines.drop_last(), key)
        }
    }
}

/// The fields of one line of the config file.
fn line_fields(line: &String) -> (hh: Vec<Vec<char>>)
    ensures
        views(hh@) == fields(line@),
{
    let cs = chars_of(line.as_str());
    split_chars(&cs, ' ')
}

/// Reads the value stored under `value` in the lines of a config file.
pub fn get_file_value(lines: &Vec<String>, value: &str) -> (target: String)
    ensures
        target@ == file_value_spec(lines.deep_view(), value@),
{
    let key = chars_of(value);
    let mut target = String::new();
    let mut i: usize = 0;
    let ghost mut found: bool = false;
    while i < lines.len()
        invariant
            i <= lines.len(),
            key@ == value@,
            target@ == file_value_spec(lines.deep_view().take(i as int), value@),
        decreases lines.len() - i,
    {
        let hh = line_fields(&lines[i]);
        assert(lines.deep_view().take(i + 1).drop_last() =~= lines.deep_view().take(i as int));
        assert(lines.deep_view().take(i + 1).last() == lines[i as int]@);
        if hh.len() == 2 && chars_eq(hh[0].as_slice(), key.as_slice()) {
            assert(views(hh@)[0] == hh[0]@);
            assert(views(hh@)[1] == hh[1]@);
            target = string_of(hh[1].as_slice());
        }
        i = i + 1;
    }
    assert(lines.deep_view().take(lines.len() as int) =~= lines.deep_view());
    target
}

} // verus!

verus! {

/// The config file text that setting `config` to `input` produces from the
/// file's current `lines`, or `None` when `input` is empty and the file is
/// left alone.
pub fn write_config(config: &str, input: &str, lines: &Vec<String>) -> (written: Option<String>)
    ensures
        match write_config_spec(lines.deep_view(), config@, input@) {
            None => written is None,
            Some(w) => written matches Some(text) && text@ == join_spec(w, seq!['\n']),
        },
{
    let input_chars = chars_of(input);
    if input_chars.len() == 0 {
        return None;
    }
    let key = chars_of(config);
    let mut sl: Vec<String> = Vec::new();
    let mut found_match = false;
    let mut i: usize = 0;
    while i < lines.len()
        invariant
            i <= lines.len(),
            key@ == config@,
            input_chars@ == input@,
            sl.deep_view() == rewritten_lines(lines.deep_view().take(i as int), config@, input@),
            found_match == key_present(lines.deep_view().take(i as int), config@),
        decreases lines.len() - i,
    {
        let ghost prefix = lines.deep_view().take(i as int);
        let ghost next = lines.deep_view().take(i + 1);
        assert(next.drop_last() =~= prefix);
        assert(next.last() == lines[i as int]@);
        let hh = line_fields(&lines[i]);
        if hh.len() >= 2 {
            assert(views(hh@)[0] == hh[0]@);
            assert(views(hh@)[1] == hh[1]@);
            let mut slot = string_of(hh[0].as_slice());
            slot.push(' ');
            let same = chars_eq(hh[0].as_slice(), key.as_slice());
            if same {
                slot.append(input);
                found_match = true;
            } else {
                let second = string_of(hh[1].as_slice());
                slot.append(second.as_str());
            }
            assert(slot@ =~= fields(lines[i as int]@)[0] + seq![' '] + if fields(
                lines[i as int]@,
            )[0] == config@ {
                input@
            } else {
                fields(lines[i as int]@)[1]
            });
            let ghost before = sl.deep_view();
            sl.push(slot);
            assert(sl.deep_view() =~= before.push(slot@));
        }
        assert(sl.deep_view() == rewritten_lines(next, config@, input@));
        assert(found_match == key_present(next, config@)) by {
            if key_present(next, config@) && !key_present(prefix, config@) {
                let k = choose|k: int|
                    0 <= k < next.len() && fields(#[trigger] next[k]).len() >= 2 && fields(next[k])[0]
                        == config@;
                if k < i {
                    assert(prefix[k] == next[k]);
                }
            }
            if key_present(prefix, config@) {
                let k = choose|k: int|
                    0 <= k < prefix.len() && fields(#[trigger] prefix[k]).len() >= 2 && fields(
                        prefix[k],
                    )[0] == config@;
                assert(next[k] == prefix[k]);
            }
            if hh.len() >= 2 && hh[0]@ == config@ {
                assert(next[i as int] == lines[i as int]@);
            }
        }
        i = i + 1;
    }
    assert(lines.deep_view().take(lines.len() as int) =~= lines.deep_view());
    if !found_match && key.len() > 0 {
        let mut extra = string_of(key.as_slice());
        extra.push(' ');
        extra.append(input);
        assert(extra@ =~= config@ + seq![' '] + input@);
        let ghost before = sl.deep_view();
        sl.push(extra);
        assert(sl.deep_view() =~= before.push(config@ + seq![' '] + input@));
    }
    proof {
        reveal_strlit("\n");
    }
    assert("\n"@ =~= seq!['\n']);
    Some(join(&sl, "\n"))
}

} // verus!

verus! {

/// A config line made of exactly two space-free, newline-free fields joined
/// by one space.
pub open spec fn is_pair_line(l: Seq<char>) -> bool {
    &&& fields(l).len() == 2
    &&& l == fields(l)[0] + seq![' '] + fields(l)[1]
    &&& !fields(l)[0].contains(' ')
    &&& !fields(l)[1].contains(' ')
    &&& !fields(l)[0].contains('\n')
    &&& !fields(l)[1].contains('\n')
}

proof fn lemma_pair_line(a: Seq<char>, b: Seq<char>)
    requires
        !a.contains(' '),
        !b.contains(' '),
        !a.contains('\n'),
        !b.contains('\n'),
    ensures
        is_pair_line(a + seq![' '] + b),
        fields(a + seq![' '] + b) == seq![a, b],
        !(a + seq![' '] + b).contains('\n'),
{
    crate::text::lemma_split_pair(a, b, ' ');
    let l = a + seq![' '] + b;
    assert(!l.contains('\n')) by {
        if l.contains('\n') {
            let k = choose|k: int| 0 <= k < l.len() && l[k] == '\n';
            if k < a.len() {
                assert(a[k] == '\n');
            } else if k > a.len() {
                assert(b[k - a.len() - 1] == '\n');
            }
        }
    }
}

/// The lines that `write_config` keeps are pair lines, and those whose first
/// field is `key` hold `input`.
proof fn lemma_rewritten_shape(lines: Seq<Seq<char>>, key: Seq<char>, input: Seq<char>)
    requires
        forall|i: int| 0 <= i < lines.len() ==> !(#[trigger] lines[i]).contains('\n'),
        !input.contains(' '),
        !input.contains('\n'),
    ensures
        forall|i: int|
            0 <= i < rewritten_lines(lines, key, input).len() ==> is_pair_line(
                #[trigger] rewritten_lines(lines, key, input)[i],
            ),
        forall|i: int|
            0 <= i < rewritten_lines(lines, key, input).len() && fields(
                #[trigger] rewritten_lines(lines, key, input)[i],
            )[0] == key ==> fields(rewritten_lines(lines, key, input)[i])[1] == input,
        key_present(lines, key) ==> exists|i: int|
            0 <= i < rewritten_lines(lines, key, input).len() && fields(
                #[trigger] rewritten_lines(lines, key, input)[i],
            )[0] == key,
    decreases lines.len(),
{
    if lines.len() > 0 {
        let init = lines.drop_last();
        assert forall|i: int| 0 <= i < init.len() implies !(#[trigger] init[i]).contains('\n') by {
            assert(init[i] == lines[i]);
        }
        lemma_rewritten_shape(init, key, input);
        let rest = rewritten_lines(init, key, input);
        let l = lines.last();
        assert(!l.contains('\n')) by {
            assert(lines[lines.len() - 1] == l);
        }
        let hh = fields(l);
        crate::text::lemma_split_pieces_lack(l, ' ', ' ');
        crate::text::lemma_split_pieces_lack(l, ' ', '\n');
        let r = rewritten_lines(lines, key, input);
        if hh.len() >= 2 {
            let second = if hh[0] == key {
                input
            } else {
                hh[1]
            };
            assert(!hh[0].contains(' ') && !hh[0].contains('\n'));
            assert(!hh[1].contains(' ') && !hh[1].contains('\n'));
            lemma_pair_line(hh[0], second);
            assert(r == rest.push(hh[0] + seq![' '] + second));
            assert forall|i: int| 0 <= i < r.len() implies is_pair_line(#[trigger] r[i]) by {
                if i < rest.len() {
                    assert(r[i] == rest[i]);
                }
            }
            assert forall|i: int|
                0 <= i < r.len() && fields(#[trigger] r[i])[0] == key implies fields(r[i])[1]
                == input by {
                if i < rest.len() {
                    assert(r[i] == rest[i]);
                }
            }
            if key_present(lines, key) {
                if hh[0] == key {
                    assert(fields(r[r.len() - 1])[0] == key);
                } else {
                    let k = choose|k: int|
                        0 <= k < lines.len() && fields(#[trigger] lines[k]).len() >= 2 && fields(
                            lines[k],
                        )[0] == key;
                    assert(k < init.len());
                    assert(init[k] == lines[k]);
                    assert(key_present(init, key));
                    let j = choose|j: int| 0 <= j < rest.len() && fields(#[trigger] rest[j])[0] == key;
                    assert(r[j] == rest[j]);
                }
            }
        } else {
            assert(r == rest);
            if key_present(lines, key) {
                let k = choose|k: int|
                    0 <= k < lines.len() && fields(#[trigger] lines[k]).len() >= 2 && fields(
                        lines[k],
                    )[0] == key;
                assert(k < init.len());
                assert(init[k] == lines[k]);
                assert(key_present(init, key));
            }
        }
    }
}

/// Stripping a trailing `\r` from a pair line strips it from its second
/// field.
proof fn lemma_strip_pair(l: Seq<char>)
    requires
        is_pair_line(l),
    ensures
        is_pair_line(strip_cr(l)),
        fields(strip_cr(l))[0] == fields(l)[0],
        fields(strip_cr(l))[1] == strip_cr(fields(l)[1]),
{
    let a = fields(l)[0];
    let b = fields(l)[1];
    let sb = strip_cr(b);
    assert(!sb.contains(' ') && !sb.contains('\n')) by {
        if sb.contains(' ') || sb.contains('\n') {
            let k = choose|k: int| 0 <= k < sb.len() && (sb[k] == ' ' || sb[k] == '\n');
            assert(b[k] == sb[k]);
        }
    }
    if b.len() > 0 && b.last() == '\r' {
        assert(l.last() == '\r');
        assert(strip_cr(l) =~= a + seq![' '] + sb);
    } else {
        assert(l.last() == (if b.len() > 0 {
            b.last()
        } else {
            ' '
        }));
        assert(strip_cr(l) == l);
    }
    lemma_pair_line(a, sb);
}

/// The value read for `key` is `v` when some line has exactly two fields
/// with `key` first, and every such line has `v` second.
proof fn lemma_file_value_is(lines: Seq<Seq<char>>, key: Seq<char>, v: Seq<char>)
    requires
        exists|i: int|
            0 <= i < lines.len() && fields(#[trigger] lines[i]).len() == 2 && fields(lines[i])[0]
                == key,
        forall|i: int|
            0 <= i < lines.len() && fields(#[trigger] lines[i]).len() == 2 && fields(lines[i])[0]
                == key ==> fields(lines[i])[1] == v,
    ensures
        file_value_spec(lines, key) == v,
    decreases lines.len(),
{
    let hh = fields(lines.last());
    if !(hh.len() == 2 && hh[0] == key) {
        let init = lines.drop_last();
        let k = choose|k: int|
            0 <= k < lines.len() && fields(#[trigger] lines[k]).len() == 2 && fields(lines[k])[0]
                == key;
        assert(k < init.len());
        assert(init[k] == lines[k]);
        assert forall|i: int|
            0 <= i < init.len() && fields(#[trigger] init[i]).len() == 2 && fields(init[i])[0]
                == key implies fields(init[i])[1] == v by {
            assert(init[i] == lines[i]);
        }
        lemma_file_value_is(init, key, v);
    } else {
        assert(lines[lines.len() - 1] == lines.last());
    }
}

/// Setting `key` to `input` in the config file and reading the file back
/// gives `input` as the value of `key`: "what a read gives back of a write".
/// It holds when no line holds a line break, `key` and `input` hold no space
/// or line break, `input` is not empty, `key` is not empty or already stands
/// first on some line, and either `input` does not end in a carriage return
/// or the written file's last line is a line of `key` (reading drops a
/// carriage return before each line break, but not at the end of the file).
pub proof fn law_config_read_after_write(lines: Seq<Seq<char>>, key: Seq<char>, input: Seq<char>)
    requires
        forall|i: int| 0 <= i < lines.len() ==> !(#[trigger] lines[i]).contains('\n'),
        key.len() > 0 || key_present(lines, key),
        !key.contains(' '),
        !key.contains('\n'),
        input.len() > 0,
        !input.contains(' '),
        !input.contains('\n'),
        input.last() != '\r' || (write_config_spec(lines, key, input) matches Some(w) && w.len()
            > 0 && fields(w.last())[0] == key),
    ensures
        write_config_spec(lines, key, input) matches Some(w) && file_value_spec(
            crate::text::lines_spec(join_spec(w, seq!['\n'])),
            key,
        ) == input,
{
    lemma_rewritten_shape(lines, key, input);
    let kept = rewritten_lines(lines, key, input);
    let w = write_config_spec(lines, key, input).unwrap();
    if !key_present(lines, key) && key.len() > 0 {
        lemma_pair_line(key, input);
        assert(w == kept.push(key + seq![' '] + input));
        assert(fields(w[w.len() - 1])[0] == key);
        assert forall|i: int| 0 <= i < w.len() implies is_pair_line(#[trigger] w[i]) by {
            if i < kept.len() {
                assert(w[i] == kept[i]);
            }
        }
        assert forall|i: int|
            0 <= i < w.len() && fields(#[trigger] w[i])[0] == key implies fields(w[i])[1]
            == input by {
            if i < kept.len() {
                assert(w[i] == kept[i]);
            }
        }
    } else {
        assert(w == kept);
    }
    assert(exists|i: int| 0 <= i < w.len() && fields(#[trigger] w[i])[0] == key);
    let k = choose|i: int| 0 <= i < w.len() && fields(#[trigger] w[i])[0] == key;
    assert forall|i: int| 0 <= i < w.len() implies !(#[trigger] w[i]).contains('\n') by {
        lemma_pair_line(fields(w[i])[0], fields(w[i])[1]);
    }
    assert(w.last().len() > 0) by {
        assert(w[w.len() - 1] == w.last());
    }
    crate::text::law_lines_of_joined(w);
    let r = crate::text::lines_spec(join_spec(w, seq!['\n']));
    if input.last() == '\r' {
        assert(r[r.len() - 1] == w[w.len() - 1]);
        assert(w[w.len() - 1] == w.last());
        assert(is_pair_line(w[w.len() - 1]));
        assert(fields(w[w.len() - 1])[1] == input);
        assert(r.last() == r[r.len() - 1]);
        assert(file_value_spec(r, key) == input);
    } else {
        assert forall|i: int| 0 <= i < r.len() implies is_pair_line(#[trigger] r[i]) && fields(
            r[i],
        )[0] == fields(w[i])[0] && (fields(w[i])[0] == key ==> fields(r[i])[1] == input) by {
            if i < w.len() - 1 {
                lemma_strip_pair(w[i]);
            }
        }
        assert(fields(r[k]).len() == 2 && fields(r[k])[0] == key);
        lemma_file_value_is(r, key, input);
    }
}

/// A line that `write_config` leaves as it is: at least two fields, and the
/// line is its first field, a space, and `input` (for `key`) or its second
/// field; a line of another key holds no line break.
pub open spec fn settled_line(l: Seq<char>, key: Seq<char>, input: Seq<char>) -> bool {
    let hh = fields(l);
    &&& hh.len() >= 2
    &&& l == hh[0] + seq![' '] + (if hh[0] == key {
        input
    } else {
        hh[1]
    })
    &&& (hh[0] != key ==> !l.contains('\n'))
}

proof fn lemma_settled(a: Seq<char>, s: Seq<char>, key: Seq<char>, input: Seq<char>)
    requires
        !a.contains(' '),
        !a.contains('\n'),
        a == key ==> s == input,
        a != key ==> !s.contains(' ') && !s.contains('\n'),
    ensures
        settled_line(a + seq![' '] + s, key, input),
        fields(a + seq![' '] + s)[0] == a,
{
    let l = a + seq![' '] + s;
    crate::text::lemma_split_concat(a, s, ' ');
    crate::text::lemma_split_no_sep(a, ' ');
    crate::text::lemma_split_nonempty(s, ' ');
    assert(fields(l) == seq![a] + split_spec(s, ' '));
    assert(fields(l)[0] == a);
    if a != key {
        crate::text::lemma_split_no_sep(s, ' ');
        assert(fields(l)[1] == s);
        assert(!l.contains('\n')) by {
            if l.contains('\n') {
                let k = choose|k: int| 0 <= k < l.len() && l[k] == '\n';
                if k < a.len() {
                    assert(a[k] == '\n');
                } else if k > a.len() {
                    assert(s[k - a.len() - 1] == '\n');
                }
            }
        }
    }
}

/// Every line that `write_config` keeps is settled, and a line of `key`
/// stays a line of `key`.
proof fn lemma_rewritten_settled(lines: Seq<Seq<char>>, key: Seq<char>, input: Seq<char>)
    requires
        forall|i: int| 0 <= i < lines.len() ==> !(#[trigger] lines[i]).contains('\n'),
    ensures
        forall|i: int|
            0 <= i < rewritten_lines(lines, key, input).len() ==> settled_line(
                #[trigger] rewritten_lines(lines, key, input)[i],
                key,
                input,
            ),
        key_present(lines, key) ==> key_present(rewritten_lines(lines, key, input), key),
    decreases lines.len(),
{
    if lines.len() > 0 {
        let init = lines.drop_last();
        assert forall|i: int| 0 <= i < init.len() implies !(#[trigger] init[i]).contains('\n') by {
            assert(init[i] == lines[i]);
        }
        lemma_rewritten_settled(init, key, input);
        let rest = rewritten_lines(init, key, input);
        let l = lines.last();
        assert(!l.contains('\n')) by {
            assert(lines[lines.len() - 1] == l);
        }
        let hh = fields(l);
        crate::text::lemma_split_pieces_lack(l, ' ', ' ');
        crate::text::lemma_split_pieces_lack(l, ' ', '\n');
        let r = rewritten_lines(lines, key, input);
        if hh.len() >= 2 {
            let second = if hh[0] == key {
                input
            } else {
                hh[1]
            };
            lemma_settled(hh[0], second, key, input);
            assert(r == rest.push(hh[0] + seq![' '] + second));
            assert forall|i: int| 0 <= i < r.len() implies settled_line(#[trigger] r[i], key, input) by {
                if i < rest.len() {
                    assert(r[i] == rest[i]);
                }
            }
            if key_present(lines, key) {
                if hh[0] == key {
                    assert(fields(r[r.len() - 1]).len() >= 2 && fields(r[r.len() - 1])[0] == key);
                } else {
                    let k = choose|k: int|
                        0 <= k < lines.len() && fields(#[trigger] lines[k]).len() >= 2 && fields(
                            lines[k],
                        )[0] == key;
                    assert(k < init.len());
                    assert(init[k] == lines[k]);
                    assert(key_present(init, key));
                    let j = choose|j: int|
                        0 <= j < rest.len() && fields(#[trigger] rest[j]).len() >= 2 && fields(
                            rest[j],
                        )[0] == key;
                    assert(r[j] == rest[j]);
                }
            }
        } else {
            assert(r == rest);
            if key_present(lines, key) {
                let k = choose|k: int|
                    0 <= k < lines.len() && fields(#[trigger] lines[k]).len() >= 2 && fields(
                        lines[k],
                    )[0] == key;
                assert(k < init.len());
                assert(init[k] == lines[k]);
                assert(key_present(init, key));
            }
        }
    }
}

/// Settled lines are kept as they are.
proof fn lemma_settled_fixed(w: Seq<Seq<char>>, key: Seq<char>, input: Seq<char>)
    requires
        forall|i: int| 0 <= i < w.len() ==> settled_line(#[trigger] w[i], key, input),
    ensures
        rewritten_lines(w, key, input) == w,
    decreases w.len(),
{
    if w.len() > 0 {
        let init = w.drop_last();
        assert forall|i: int| 0 <= i < init.len() implies settled_line(#[trigger] init[i], key, input) by {
            assert(init[i] == w[i]);
        }
        lemma_settled_fixed(init, key, input);
        assert(settled_line(w[w.len() - 1], key, input));
        assert(w.last() == w[w.len() - 1]);
        assert(init.push(w.last()) =~= w);
    }
}

/// Rewriting the lines of two texts one after the other.
proof fn lemma_rewritten_concat(
    a: Seq<Seq<char>>,
    b: Seq<Seq<char>>,
    key: Seq<char>,
    input: Seq<char>,
)
    ensures
        rewritten_lines(a + b, key, input) == rewritten_lines(a, key, input) + rewritten_lines(
            b,
            key,
            input,
        ),
    decreases b.len(),
{
    if b.len() == 0 {
        assert(a + b =~= a);
        assert(rewritten_lines(a, key, input) + rewritten_lines(b, key, input) =~= rewritten_lines(
            a,
            key,
            input,
        ));
    } else {
        lemma_rewritten_concat(a, b.drop_last(), key, input);
        assert((a + b).drop_last() =~= a + b.drop_last());
        assert((a + b).last() == b.last());
        let ra = rewritten_lines(a, key, input);
        let rb = rewritten_lines(b.drop_last(), key, input);
        if let Some(l) = rewritten_line(b.last(), key, input) {
            assert((ra + rb).push(l) =~= ra + rb.push(l));
        }
    }
}

/// Lines that rewrite alike give the same rewritten lines.
proof fn lemma_rewritten_congruent(
    a: Seq<Seq<char>>,
    b: Seq<Seq<char>>,
    key: Seq<char>,
    input: Seq<char>,
)
    requires
        a.len() == b.len(),
        forall|i: int|
            0 <= i < a.len() ==> rewritten_line(#[trigger] a[i], key, input) == rewritten_line(
                b[i],
                key,
                input,
            ),
    ensures
        rewritten_lines(a, key, input) == rewritten_lines(b, key, input),
    decreases a.len(),
{
    if a.len() > 0 {
        let ai = a.drop_last();
        let bi = b.drop_last();
        assert forall|i: int| 0 <= i < ai.len() implies rewritten_line(#[trigger] ai[i], key, input)
            == rewritten_line(bi[i], key, input) by {
            assert(ai[i] == a[i] && bi[i] == b[i]);
        }
        lemma_rewritten_congruent(ai, bi, key, input);
        assert(a.last() == a[a.len() - 1] && b.last() == b[b.len() - 1]);
    }
}

/// Lines without a space are all dropped.
proof fn lemma_rewritten_spaceless(s: Seq<Seq<char>>, key: Seq<char>, input: Seq<char>)
    requires
        forall|i: int| 0 <= i < s.len() ==> !(#[trigger] s[i]).contains(' '),
    ensures
        rewritten_lines(s, key, input) == Seq::<Seq<char>>::empty(),
    decreases s.len(),
{
    if s.len() > 0 {
        let init = s.drop_last();
        assert forall|i: int| 0 <= i < init.len() implies !(#[trigger] init[i]).contains(' ') by {
            assert(init[i] == s[i]);
        }
        lemma_rewritten_spaceless(init, key, input);
        assert(s.last() == s[s.len() - 1]);
        crate::text::lemma_split_no_sep(s.last(), ' ');
    }
}

/// A line of the rewritten lines of `key` comes from a line of `key`.
proof fn lemma_present_back(s: Seq<Seq<char>>, key: Seq<char>, input: Seq<char>)
    ensures
        key_present(rewritten_lines(s, key, input), key) ==> key_present(s, key),
    decreases s.len(),
{
    if s.len() > 0 && key_present(rewritten_lines(s, key, input), key) {
        let init = s.drop_last();
        lemma_present_back(init, key, input);
        let ri = rewritten_lines(init, key, input);
        let r = rewritten_lines(s, key, input);
        let i = choose|i: int|
            0 <= i < r.len() && fields(#[trigger] r[i]).len() >= 2 && fields(r[i])[0] == key;
        if i < ri.len() {
            assert(r[i] == ri[i]);
            assert(key_present(ri, key));
            let k = choose|k: int|
                0 <= k < init.len() && fields(#[trigger] init[k]).len() >= 2 && fields(init[k])[0]
                    == key;
            assert(s[k] == init[k]);
        } else {
            let l = s.last();
            let hh = fields(l);
            assert(hh.len() >= 2);
            let y = if hh[0] == key {
                input
            } else {
                hh[1]
            };
            assert(r[i] == hh[0] + seq![' '] + y);
            crate::text::lemma_split_pieces_lack(l, ' ', ' ');
            crate::text::lemma_split_concat(hh[0], y, ' ');
            crate::text::lemma_split_no_sep(hh[0], ' ');
            assert(fields(r[i])[0] == hh[0]);
            assert(s[s.len() - 1] == l);
        }
    }
}

/// A piece of a read-back file whose trailing carriage return, if any,
/// makes no difference to its rewriting: it holds no space (and is dropped
/// either way), it is a line of `key` (and is replaced either way), or it
/// does not end in a carriage return.
pub open spec fn piece_keeps(x: Seq<char>, key: Seq<char>) -> bool {
    ||| !x.contains(' ')
    ||| (fields(x).len() >= 2 && fields(x)[0] == key)
    ||| strip_cr(x) == x
}

proof fn lemma_strip_piece(x: Seq<char>, key: Seq<char>, input: Seq<char>)
    requires
        piece_keeps(x, key),
    ensures
        rewritten_line(strip_cr(x), key, input) == rewritten_line(x, key, input),
{
    if strip_cr(x) != x {
        let d = x.drop_last();
        assert(strip_cr(x) == d);
        if !x.contains(' ') {
            assert(!d.contains(' ')) by {
                if d.contains(' ') {
                    let k = choose|k: int| 0 <= k < d.len() && d[k] == ' ';
                    assert(x[k] == ' ');
                }
            }
            crate::text::lemma_split_no_sep(x, ' ');
            crate::text::lemma_split_no_sep(d, ' ');
        } else {
            crate::text::lemma_split_nonempty(d, ' ');
            let rest = split_spec(d, ' ');
            assert(x.last() == '\r');
            assert(fields(x) == rest.drop_last().push(rest.last().push('\r')));
            assert(fields(x).len() == rest.len());
            assert(fields(x)[0] == rest[0]);
        }
    }
}

/// Splitting text that starts with a separator-free prefix: the prefix
/// joins the first piece.
proof fn lemma_split_prefixed(a: Seq<char>, s: Seq<char>, sep: char)
    requires
        !a.contains(sep),
    ensures
        split_spec(a + s, sep) == seq![a + split_spec(s, sep)[0]] + split_spec(s, sep).skip(1),
    decreases s.len(),
{
    crate::text::lemma_split_nonempty(s, sep);
    if s.len() == 0 {
        assert(a + s =~= a);
        crate::text::lemma_split_no_sep(a, sep);
        assert(split_spec(s, sep) =~= seq![Seq::<char>::empty()]);
        assert(seq![a + Seq::<char>::empty()] + seq![Seq::<char>::empty()].skip(1) =~= seq![a]);
    } else {
        let d = s.drop_last();
        lemma_split_prefixed(a, d, sep);
        crate::text::lemma_split_nonempty(d, sep);
        assert((a + s).drop_last() =~= a + d);
        assert((a + s).last() == s.last());
        let q = split_spec(d, sep);
        let r = seq![a + q[0]] + q.skip(1);
        let c = s.last();
        if c == sep {
            let qs = q.push(Seq::<char>::empty());
            assert(split_spec(s, sep) == qs);
            assert(qs[0] == q[0]);
            assert(r.push(Seq::<char>::empty()) =~= seq![a + qs[0]] + qs.skip(1));
        } else {
            let qs = q.drop_last().push(q.last().push(c));
            assert(split_spec(s, sep) == qs);
            if q.len() == 1 {
                assert(qs[0] == q[0].push(c));
                assert(r.drop_last().push(r.last().push(c)) =~= seq![a + qs[0]] + qs.skip(1));
            } else {
                assert(qs[0] == q[0]);
                assert(r.last() == q.last());
                assert(r.drop_last().push(r.last().push(c)) =~= seq![a + qs[0]] + qs.skip(1));
            }
        }
    }
}

/// Every piece of `input` after its first line break holds no space.
pub open spec fn tail_spaceless(input: Seq<char>) -> bool {
    forall|j: int|
        1 <= j < split_spec(input, '\n').len() ==> !(#[trigger] split_spec(input, '\n')[j]).contains(
            ' ',
        )
}

/// Read back, a line of `key` splits into its first piece, which rewrites
/// to the line again, and pieces without a space, which are dropped.
proof fn lemma_key_line_pieces(key: Seq<char>, input: Seq<char>)
    requires
        !key.contains(' '),
        !key.contains('\n'),
        tail_spaceless(input),
    ensures
        rewritten_lines(split_spec(key + seq![' '] + input, '\n'), key, input) == seq![
            key + seq![' '] + input,
        ],
        forall|j: int|
            0 <= j < split_spec(key + seq![' '] + input, '\n').len() ==> piece_keeps(
                #[trigger] split_spec(key + seq![' '] + input, '\n')[j],
                key,
            ),
{
    let p = split_spec(input, '\n');
    crate::text::lemma_split_nonempty(input, '\n');
    let a = key + seq![' '];
    assert(!a.contains('\n')) by {
        if a.contains('\n') {
            let k = choose|k: int| 0 <= k < a.len() && a[k] == '\n';
            assert(key[k] == '\n');
        }
    }
    assert(key + seq![' '] + input =~= a + input);
    lemma_split_prefixed(a, input, '\n');
    let first = a + p[0];
    let tail = p.skip(1);
    let pieces = split_spec(key + seq![' '] + input, '\n');
    assert(pieces == seq![first] + tail);
    assert(first =~= key + seq![' '] + p[0]);
    crate::text::lemma_split_concat(key, p[0], ' ');
    crate::text::lemma_split_no_sep(key, ' ');
    crate::text::lemma_split_nonempty(p[0], ' ');
    assert(fields(first) == seq![key] + split_spec(p[0], ' '));
    assert(fields(first).len() >= 2 && fields(first)[0] == key);
    assert forall|i: int| 0 <= i < tail.len() implies !(#[trigger] tail[i]).contains(' ') by {
        assert(tail[i] == p[i + 1]);
    }
    lemma_rewritten_spaceless(tail, key, input);
    lemma_rewritten_concat(seq![first], tail, key, input);
    assert(seq![first].drop_last() =~= Seq::<Seq<char>>::empty());
    assert(seq![first].last() == first);
    assert(rewritten_line(first, key, input) == Some(key + seq![' '] + input));
    assert(rewritten_lines(Seq::<Seq<char>>::empty(), key, input) == Seq::<Seq<char>>::empty());
    assert(Seq::<Seq<char>>::empty().push(key + seq![' '] + input) =~= seq![key + seq![' '] + input]);
    assert(rewritten_lines(seq![first], key, input) =~= seq![key + seq![' '] + input]);
    assert(seq![key + seq![' '] + input] + Seq::<Seq<char>>::empty() =~= seq![
        key + seq![' '] + input,
    ]);
    assert forall|j: int| 0 <= j < pieces.len() implies piece_keeps(#[trigger] pieces[j], key) by {
        if j == 0 {
            assert(pieces[j] == first);
        } else {
            assert(pieces[j] == tail[j - 1]);
        }
    }
}

/// A written line may end in a carriage return that reading would drop only
/// as the file's last line or as a line of `key`.
pub open spec fn reread_keeps(w: Seq<Seq<char>>, key: Seq<char>) -> bool {
    forall|i: int|
        0 <= i < w.len() - 1 ==> fields(#[trigger] w[i])[0] == key || strip_cr(w[i]) == w[i]
}

/// Cutting the written text at its line breaks gives pieces that rewrite to
/// the written lines again; every piece but the last keeps its rewriting
/// when reading drops its carriage return, and so does the last one when the
/// last line is a line of `key` or ends in no carriage return.
proof fn lemma_reread_raw(w: Seq<Seq<char>>, key: Seq<char>, input: Seq<char>)
    requires
        forall|i: int| 0 <= i < w.len() ==> settled_line(#[trigger] w[i], key, input),
        forall|i: int| 0 <= i < w.len() && fields(#[trigger] w[i])[0] == key ==> tail_spaceless(input),
        !key.contains(' '),
        !key.contains('\n'),
        reread_keeps(w, key),
    ensures
        rewritten_lines(split_spec(join_spec(w, seq!['\n']), '\n'), key, input) == w,
        forall|j: int|
            0 <= j < split_spec(join_spec(w, seq!['\n']), '\n').len() - 1 ==> piece_keeps(
                #[trigger] split_spec(join_spec(w, seq!['\n']), '\n')[j],
                key,
            ),
        w.len() > 0 && (fields(w.last())[0] == key || strip_cr(w.last()) == w.last()) ==> forall|
            j: int,
        |
            0 <= j < split_spec(join_spec(w, seq!['\n']), '\n').len() ==> piece_keeps(
                #[trigger] split_spec(join_spec(w, seq!['\n']), '\n')[j],
                key,
            ),
    decreases w.len(),
{
    let big = split_spec(join_spec(w, seq!['\n']), '\n');
    if w.len() == 0 {
        assert(big =~= seq![Seq::<char>::empty()]);
        lemma_rewritten_spaceless(big, key, input);
    } else {
        let l = w.last();
        assert(l == w[w.len() - 1]);
        let pl = split_spec(l, '\n');
        // the last line on its own
        if fields(l)[0] == key {
            assert(l == key + seq![' '] + input);
            lemma_key_line_pieces(key, input);
        } else {
            crate::text::lemma_split_no_sep(l, '\n');
            assert(pl == seq![l]);
            assert(seq![l].drop_last() =~= Seq::<Seq<char>>::empty());
            assert(seq![l].last() == l);
            assert(settled_line(w[w.len() - 1], key, input));
            assert(rewritten_line(l, key, input) == Some(l));
            assert(rewritten_lines(Seq::<Seq<char>>::empty(), key, input) == Seq::<Seq<char>>::empty());
            assert(Seq::<Seq<char>>::empty().push(l) =~= seq![l]);
            assert(rewritten_lines(pl, key, input) =~= seq![l]);
        }
        assert(rewritten_lines(pl, key, input) == seq![l]);
        assert(forall|j: int|
            0 <= j < pl.len() - 1 ==> piece_keeps(#[trigger] pl[j], key));
        assert((fields(l)[0] == key || strip_cr(l) == l) ==> forall|j: int|
            0 <= j < pl.len() ==> piece_keeps(#[trigger] pl[j], key));
        if w.len() == 1 {
            assert(join_spec(w, seq!['\n']) == w[0]);
            assert(big == pl);
            assert(seq![l] =~= w);
        } else {
            let init = w.drop_last();
            assert forall|i: int| 0 <= i < init.len() implies settled_line(#[trigger] init[i], key, input) by {
                assert(init[i] == w[i]);
            }
            assert forall|i: int| 0 <= i < init.len() && fields(#[trigger] init[i])[0] == key implies tail_spaceless(input) by {
                assert(init[i] == w[i]);
            }
            assert forall|i: int| 0 <= i < init.len() - 1 implies fields(#[trigger] init[i])[0] == key
                || strip_cr(init[i]) == init[i] by {
                assert(init[i] == w[i]);
            }
            assert(init.last() == w[w.len() - 2]);
            lemma_reread_raw(init, key, input);
            let pi = split_spec(join_spec(init, seq!['\n']), '\n');
            assert(join_spec(w, seq!['\n']) == join_spec(init, seq!['\n']) + seq!['\n'] + l);
            crate::text::lemma_split_concat(join_spec(init, seq!['\n']), l, '\n');
            assert(big == pi + pl);
            lemma_rewritten_concat(pi, pl, key, input);
            assert(init + seq![l] =~= w);
            crate::text::lemma_split_nonempty(l, '\n');
            assert forall|j: int| 0 <= j < big.len() - 1 implies piece_keeps(#[trigger] big[j], key) by {
                if j < pi.len() {
                    assert(big[j] == pi[j]);
                } else {
                    assert(big[j] == pl[j - pi.len()]);
                }
            }
            if fields(l)[0] == key || strip_cr(l) == l {
                assert forall|j: int| 0 <= j < big.len() implies piece_keeps(#[trigger] big[j], key) by {
                    if j < pi.len() {
                        assert(big[j] == pi[j]);
                    } else {
                        assert(big[j] == pl[j - pi.len()]);
                    }
                }
            }
        }
    }
}

/// Writing a config value twice leaves the file as writing it once does:
/// the second write, made on the lines read back from the first, writes the
/// same lines. It holds when no line holds a line break (as no line read
/// from a file does), `key` holds no space or line break, every piece of
/// `input` after a line break holds no space (when a line of `key` is
/// written), and no written line but the last or a line of `key` ends in a
/// carriage return; an empty `input` writes nothing.
pub proof fn law_config_write_twice(lines: Seq<Seq<char>>, key: Seq<char>, input: Seq<char>)
    requires
        forall|i: int| 0 <= i < lines.len() ==> !(#[trigger] lines[i]).contains('\n'),
        !key.contains(' '),
        !key.contains('\n'),
        (key.len() > 0 || key_present(lines, key)) ==> tail_spaceless(input),
        write_config_spec(lines, key, input) matches Some(w) ==> reread_keeps(w, key),
    ensures
        match write_config_spec(lines, key, input) {
            None => input.len() == 0,
            Some(w) => write_config_spec(
                crate::text::lines_spec(join_spec(w, seq!['\n'])),
                key,
                input,
            ) == Some(w),
        },
{
    if input.len() > 0 {
        lemma_rewritten_settled(lines, key, input);
        lemma_present_back(lines, key, input);
        let kept = rewritten_lines(lines, key, input);
        let w = write_config_spec(lines, key, input).unwrap();
        if !key_present(lines, key) && key.len() > 0 {
            lemma_settled(key, input, key, input);
            assert(w == kept.push(key + seq![' '] + input));
            assert forall|i: int| 0 <= i < w.len() implies settled_line(#[trigger] w[i], key, input) by {
                if i < kept.len() {
                    assert(w[i] == kept[i]);
                }
            }
            assert(fields(w[w.len() - 1]).len() >= 2 && fields(w[w.len() - 1])[0] == key);
            assert(key_present(w, key));
        } else {
            assert(w == kept);
        }
        assert forall|i: int| 0 <= i < w.len() && fields(#[trigger] w[i])[0] == key implies tail_spaceless(input) by {
            assert(settled_line(w[i], key, input));
            assert(key_present(w, key));
        }
        lemma_settled_fixed(w, key, input);
        lemma_reread_raw(w, key, input);
        let t = join_spec(w, seq!['\n']);
        let big = split_spec(t, '\n');
        let back = crate::text::lines_spec(t);
        crate::text::lemma_split_nonempty(t, '\n');
        if big.last().len() == 0 {
            let bd = big.drop_last();
            assert forall|i: int| 0 <= i < bd.len() implies rewritten_line(#[trigger] back[i], key, input)
                == rewritten_line(bd[i], key, input) by {
                assert(back[i] == strip_cr(big[i]));
                assert(bd[i] == big[i]);
                lemma_strip_piece(big[i], key, input);
            }
            assert forall|i: int| 0 <= i < back.len() implies rewritten_line(#[trigger] back[i], key, input)
                == rewritten_line(bd[i], key, input) by {
                assert(back[i] == strip_cr(big[i]));
                assert(bd[i] == big[i]);
                lemma_strip_piece(big[i], key, input);
            }
            lemma_rewritten_congruent(back, bd, key, input);
            assert(bd + seq![big.last()] =~= big);
            lemma_rewritten_concat(bd, seq![big.last()], key, input);
            crate::text::lemma_split_no_sep(big.last(), ' ');
            assert(seq![big.last()].drop_last() =~= Seq::<Seq<char>>::empty());
            assert(rewritten_lines(seq![big.last()], key, input) =~= Seq::<Seq<char>>::empty());
            assert(rewritten_lines(bd, key, input) + Seq::<Seq<char>>::empty() =~= rewritten_lines(
                bd,
                key,
                input,
            ));
        } else {
            assert forall|i: int| 0 <= i < back.len() implies rewritten_line(#[trigger] back[i], key, input)
                == rewritten_line(big[i], key, input) by {
                if i < big.len() - 1 {
                    assert(back[i] == strip_cr(big[i]));
                    lemma_strip_piece(big[i], key, input);
                } else {
                    assert(back[i] == big[i]);
                }
            }
            lemma_rewritten_congruent(back, big, key, input);
        }
        assert(rewritten_lines(back, key, input) == w);
        if key.len() > 0 {
            lemma_present_back(back, key, input);
            assert(key_present(back, key));
        }
    }
}

} // verus!

verus! {

/// `s` with every space taken out, as `str::replace(" ", "")` gives it.
pub open spec fn without_spaces(s: Seq<char>) -> Seq<char>
    decreases s.len(),
{
    if s.len() == 0 {
        Seq::empty()
    } else if s.last() == ' ' {
        without_spaces(s.drop_last())
    } else {
        without_spaces(s.drop_last()).push(s.last())
    }
}

/// `s` with every space taken out.
pub fn remove_spaces(s: &[char]) -> (r: Vec<char>)
    ensures
        r@ == without_spaces(s@),
{
    let mut r: Vec<char> = Vec::new();
    let mut i: usize = 0;
    while i < s.len()
        invariant
            i <= s.len(),
            r@ == without_spaces(s@.take(i as int)),
        decreases s.len() - i,
    {
        assert(s@.take(i + 1).drop_last() =~= s@.take(i as int));
        if s[i] != ' ' {
            r.push(s[i]);
        }
        i = i + 1;
    }
    assert(s@.take(s.len() as int) =~= s@);
    r
}

/// The settings the panel shows, as `config` reads them from `config.txt`.
pub struct ConfigView {
    pub timeout: u16,
    pub buffer: u16,
    pub proxy: bool,
    pub target: String,
}

/// The value of a config line for the panel: its second field, with the
/// third appended (no space between) when the line has exactly three.
pub open spec fn panel_value(hh: Seq<Seq<char>>) -> Seq<char> {
    if hh.len() == 3 {
        hh[1] + hh[2]
    } else {
        hh[1]
    }
}

/// The panel's view of the settings after the lines of `config.txt`, read
/// in order: a line of at least two fields sets the key its first field
/// names; timeout and buffer fall back to 15 and 50 on values that are no
/// `u16`, the proxy switch to `false`; the target loses the files folder
/// (without its spaces) when it starts with it.
pub open spec fn config_view_fold(lines: Seq<Seq<char>>, files_dir: Seq<char>) -> (u16, u16, bool, Seq<char>)
    decreases lines.len(),
{
    if lines.len() == 0 {
        (50, 50, false, files_dir + "/urls-input.txt"@)
    } else {
        let st = config_view_fold(lines.drop_last(), files_dir);
        let hh = fields(lines.last());
        if hh.len() >= 2 {
            let h0 = hh[0];
            let h1 = panel_value(hh);
            let m = without_spaces(files_dir);
            (
                if h0 == "timeout"@ {
                    match crate::text::parse_unsigned(h1, u16::MAX as nat) {
                        Some(n) => n as u16,
                        None => 15,
                    }
                } else {
                    st.0
                },
                if h0 == "buffer"@ {
                    match crate::text::parse_unsigned(h1, u16::MAX as nat) {
                        Some(n) => n as u16,
                        None => 50,
                    }
                } else {
                    st.1
                },
                if h0 == "proxy"@ {
                    match crate::text::parse_bool_spec(h1) {
                        Some(b) => b,
                        None => false,
                    }
                } else {
                    st.2
                },
                if h0 == "target"@ {
                    if crate::text::has_prefix(h1, m) {
                        crate::text::remove_first(h1, m)
                    } else {
                        h1
                    }
                } else {
                    st.3
                },
            )
        } else {
            st
        }
    }
}

/// get config: the settings the panel shows, from the lines of `config.txt`
/// and the files folder.
pub fn config(lines: &Vec<String>, files_dir: &str) -> (view: ConfigView)
    ensures
        (view.timeout, view.buffer, view.proxy, view.target@) == config_view_fold(
            lines.deep_view(),
            files_dir@,
        ),
{
    let mut target = String::from_str(files_dir);
    target.append("/urls-input.txt");
    let mut view = ConfigView { timeout: 50, buffer: 50, proxy: false, target };
    let fd = chars_of(files_dir);
    let m = remove_spaces(fd.as_slice());
    let mut i: usize = 0;
    while i < lines.len()
        invariant
            i <= lines.len(),
            m@ == without_spaces(files_dir@),
            (view.timeout, view.buffer, view.proxy, view.target@) == config_view_fold(
                lines.deep_view().take(i as int),
                files_dir@,
            ),
        decreases lines.len() - i,
    {
        assert(lines.deep_view().take(i + 1).drop_last() =~= lines.deep_view().take(i as int));
        assert(lines.deep_view().take(i + 1).last() == lines[i as int]@);
        let hh = line_fields(&lines[i]);
        if hh.len() >= 2 {
            assert(views(hh@)[0] == hh[0]@);
            assert(views(hh@)[1] == hh[1]@);
            let mut h1: Vec<char> = hh[1].clone();
            if hh.len() == 3 {
                assert(views(hh@)[2] == hh[2]@);
                let mut k: usize = 0;
                while k < hh[2].len()
                    invariant
                        k <= hh[2].len(),
                        hh.len() == 3,
                        h1@ == hh[1]@ + hh[2]@.take(k as int),
                    decreases hh[2].len() - k,
                {
                    h1.push(hh[2][k]);
                    k = k + 1;
                    assert(h1@ =~= hh[1]@ + hh[2]@.take(k as int));
                }
                assert(hh[2]@.take(hh[2]@.len() as int) =~= hh[2]@);
            }
            assert(h1@ == panel_value(fields(lines[i as int]@)));
            let h0 = hh[0].as_slice();
            if chars_eq_str(h0, "timeout") {
                view.timeout = match parse_u16(h1.as_slice()) {
                    Some(n) => n,
                    None => 15,
                };
            }
            if chars_eq_str(h0, "buffer") {
                view.buffer = match parse_u16(h1.as_slice()) {
                    Some(n) => n,
                    None => 50,
                };
            }
            if chars_eq_str(h0, "proxy") {
                view.proxy = match parse_bool(h1.as_slice()) {
                    Some(b) => b,
                    None => false,
                };
            }
            if chars_eq_str(h0, "target") {
                if starts_with(h1.as_slice(), m.as_slice()) {
                    let rest = remove_first_of(h1.as_slice(), m.as_slice());
                    view.target = string_of(rest.as_slice());
                } else {
                    view.target = string_of(h1.as_slice());
                }
            }
        }
        i = i + 1;
    }
    assert(lines.deep_view().take(lines.len() as int) =~= lines.deep_view());
    view
}

/// The text of a first `config.txt`: default settings and the sample list of
/// sites in the files folder as target.
pub open spec fn default_config_spec(files_dir: Seq<char>) -> Seq<char> {
    "timeout 15\nbuffer false\nproxy false\ntor false\nlicense false\n"@ + "target "@ + files_dir
        + "urls-input.txt"@
}

/// make sure conf is ready: the text that a missing `config.txt` is created
/// with.
pub fn default_config(files_dir: &str) -> (text: String)
    ensures
        text@ == default_config_spec(files_dir@),
{
    let mut text = String::from_str("timeout 15\nbuffer false\nproxy false\ntor false\nlicense false\n");
    text.append("target ");
    text.append(files_dir);
    text.append("urls-input.txt");
    text
}

/// The content of `config.txt` after making sure it is ready, from its
/// content before (`None`: no such file): an existing file is left as it
/// is, a missing one is created with the default text.
pub open spec fn config_after_init(file: Option<Seq<char>>, files_dir: Seq<char>) -> Seq<char> {
    match file {
        Some(content) => content,
        None => default_config_spec(files_dir),
    }
}

/// What making sure `config.txt` is ready writes: the default text when the
/// file does not exist, nothing when it does.
pub fn init_config_text(config_exists: bool, files_dir: &str) -> (text: Option<String>)
    ensures
        config_exists ==> text is None,
        !config_exists ==> (text matches Some(t) && t@ == config_after_init(None, files_dir@)),
{
    if config_exists {
        None
    } else {
        Some(default_config(files_dir))
    }
}

/// Making sure the config file is ready twice leaves it as doing so once:
/// the first time creates it when missing, the second finds it and writes
/// nothing.
pub proof fn law_init_config_once(file: Option<Seq<char>>, files_dir: Seq<char>)
    ensures
        config_after_init(Some(config_after_init(file, files_dir)), files_dir) == config_after_init(
            file,
            files_dir,
        ),
        file is Some ==> config_after_init(file, files_dir) == file.unwrap(),
{
}

} // verus!

verus! {

/// A config line of at most two fields that holds no line break and does
/// not end in a carriage return.
pub open spec fn is_plain_line(l: Seq<char>) -> bool {
    fields(l).len() <= 2 && !l.contains('\n') && strip_cr(l) == l
}

/// Rewriting keeps plain lines whose first field is not `key` as they are,
/// and leaves the value read for any other key unchanged.
proof fn lemma_rewritten_frame(lines: Seq<Seq<char>>, key: Seq<char>, input: Seq<char>, other: Seq<char>)
    requires
        forall|i: int| 0 <= i < lines.len() ==> is_plain_line(#[trigger] lines[i]),
        other != key,
        !input.contains('\n'),
        !input.contains(' '),
        input.len() > 0,
        input.last() != '\r',
    ensures
        file_value_spec(rewritten_lines(lines, key, input), other) == file_value_spec(lines, other),
        forall|i: int|
            0 <= i < rewritten_lines(lines, key, input).len() ==> {
                let l = #[trigger] rewritten_lines(lines, key, input)[i];
                &&& !l.contains('\n')
                &&& strip_cr(l) == l
                &&& l.len() > 0
            },
    decreases lines.len(),
{
    if lines.len() > 0 {
        let init = lines.drop_last();
        assert forall|i: int| 0 <= i < init.len() implies is_plain_line(#[trigger] init[i]) by {
            assert(init[i] == lines[i]);
        }
        lemma_rewritten_frame(init, key, input, other);
        let l = lines.last();
        assert(is_plain_line(l)) by {
            assert(lines[lines.len() - 1] == l);
        }
        let hh = fields(l);
        let rest = rewritten_lines(init, key, input);
        let r = rewritten_lines(lines, key, input);
        if hh.len() >= 2 {
            crate::text::lemma_join_split(l, ' ');
            assert(hh.len() == 2);
            assert(crate::text::join_spec(hh, seq![' ']) == crate::text::join_spec(hh.drop_last(), seq![' ']) + seq![' '] + hh.last());
            assert(hh.drop_last() =~= seq![hh[0]]);
            assert(l == hh[0] + seq![' '] + hh[1]);
            crate::text::lemma_split_pieces_lack(l, ' ', ' ');
            crate::text::lemma_split_pieces_lack(l, ' ', '\n');
            assert(!hh[0].contains(' ') && !hh[1].contains(' '));
            let second = if hh[0] == key {
                input
            } else {
                hh[1]
            };
            crate::text::lemma_split_pair(hh[0], second, ' ');
            let nl = hh[0] + seq![' '] + second;
            assert(r == rest.push(nl));
            assert(r.drop_last() == rest);
            assert(fields(nl) == seq![hh[0], second]);
            assert(!nl.contains('\n')) by {
                if nl.contains('\n') {
                    let k = choose|k: int| 0 <= k < nl.len() && nl[k] == '\n';
                    if k < hh[0].len() {
                        assert(hh[0][k] == '\n');
                    } else if k > hh[0].len() {
                        assert(second[k - hh[0].len() - 1] == '\n');
                    }
                }
            }
            assert(strip_cr(nl) == nl) by {
                if second.len() > 0 {
                    assert(nl.last() == second.last());
                    if hh[0] != key {
                        assert(l.last() == hh[1].last());
                    }
                } else {
                    assert(nl.last() == ' ');
                }
            }
            assert forall|i: int| 0 <= i < r.len() implies {
                let x = #[trigger] r[i];
                &&& !x.contains('\n')
                &&& strip_cr(x) == x
                &&& x.len() > 0
            } by {
                if i < rest.len() {
                    assert(r[i] == rest[i]);
                }
            }
        } else {
            assert(r == rest);
        }
    }
}

/// Setting `key` in the config file leaves the value read back for every
/// other key as it was, when the file's lines are plain (at most two
/// fields, no carriage return at their end) and the key and the value are
/// single tokens without line breaks, the value not ending in a carriage
/// return.
pub proof fn law_config_write_keeps_others(
    lines: Seq<Seq<char>>,
    key: Seq<char>,
    input: Seq<char>,
    other: Seq<char>,
)
    requires
        forall|i: int| 0 <= i < lines.len() ==> is_plain_line(#[trigger] lines[i]),
        other != key,
        !key.contains(' '),
        !key.contains('\n'),
        input.len() > 0,
        !input.contains(' '),
        !input.contains('\n'),
        input.last() != '\r',
    ensures
        write_config_spec(lines, key, input) matches Some(w) && file_value_spec(
            crate::text::lines_spec(join_spec(w, seq!['\n'])),
            other,
        ) == file_value_spec(lines, other),
{
    lemma_rewritten_frame(lines, key, input, other);
    let kept = rewritten_lines(lines, key, input);
    let w = write_config_spec(lines, key, input).unwrap();
    if !key_present(lines, key) && key.len() > 0 {
        lemma_pair_line(key, input);
        let nl = key + seq![' '] + input;
        assert(w == kept.push(nl));
        assert(w.drop_last() == kept);
        assert(fields(nl)[0] == key);
        assert(file_value_spec(w, other) == file_value_spec(kept, other));
        assert(strip_cr(nl) == nl) by {
            assert(nl.last() == input.last());
        }
        assert forall|i: int| 0 <= i < w.len() implies {
            let x = #[trigger] w[i];
            &&& !x.contains('\n')
            &&& strip_cr(x) == x
            &&& x.len() > 0
        } by {
            if i < kept.len() {
                assert(w[i] == kept[i]);
            }
        }
    } else {
        assert(w == kept);
    }
    if w.len() == 0 {
        assert(join_spec(w, seq!['\n']) =~= Seq::<char>::empty());
        assert(split_spec(Seq::<char>::empty(), '\n') =~= seq![Seq::<char>::empty()]);
        assert(crate::text::lines_spec(join_spec(w, seq!['\n'])) =~= Seq::<Seq<char>>::empty());
        assert(file_value_spec(w, other) == Seq::<char>::empty());
    } else {
        assert forall|i: int| 0 <= i < w.len() implies !(#[trigger] w[i]).contains('\n') by {}
        assert(w.last().len() > 0) by {
            assert(w[w.len() - 1] == w.last());
        }
        crate::text::law_lines_of_joined(w);
        assert(crate::text::lines_spec(join_spec(w, seq!['\n'])) =~= w);
    }
}

/// A value that starts with `m` loses exactly that prefix when its first
/// occurrence of `m` is taken out.
proof fn lemma_remove_prefix(v: Seq<char>, m: Seq<char>)
    requires
        crate::text::has_prefix(v, m),
    ensures
        m + crate::text::remove_first(v, m) == v,
{
    assert(crate::text::first_occurrence(v, m, 0)) by {
        assert(v.subrange(0, m.len() as int) =~= v.take(m.len() as int));
    }
    let i = choose|i: int| crate::text::first_occurrence(v, m, i);
    crate::text::lemma_first_occurrence_unique(v, m, i, 0);
    assert(v.take(0) + v.skip(m.len() as int) =~= v.skip(m.len() as int));
    assert(m + v.skip(m.len() as int) =~= v);
}

/// The panel shows the target of the last `target` line, of two fields or
/// of three (whose last two fields run together): when that value starts
/// with the files folder (spaces taken out), the folder is taken off, so
/// that putting it back in front gives the value again; otherwise the value
/// is shown as it is.
pub proof fn law_panel_target_shown(
    lines: Seq<Seq<char>>,
    files_dir: Seq<char>,
    a: Seq<char>,
    b: Seq<char>,
    three: bool,
)
    requires
        !a.contains(' '),
        !b.contains(' '),
    ensures
        ({
            let line = if three {
                "target"@ + seq![' '] + a + seq![' '] + b
            } else {
                "target"@ + seq![' '] + a
            };
            let value = if three {
                a + b
            } else {
                a
            };
            let shown = config_view_fold(lines.push(line), files_dir).3;
            let m = without_spaces(files_dir);
            &&& crate::text::has_prefix(value, m) ==> m + shown == value
            &&& !crate::text::has_prefix(value, m) ==> shown == value
        }),
{
    reveal_strlit("target");
    let t = "target"@;
    assert(!t.contains(' ')) by {
        if t.contains(' ') {
            let k = choose|k: int| 0 <= k < t.len() && t[k] == ' ';
        }
    }
    let line = if three {
        t + seq![' '] + a + seq![' '] + b
    } else {
        t + seq![' '] + a
    };
    let value = if three {
        a + b
    } else {
        a
    };
    if three {
        crate::text::lemma_split_concat(t + seq![' '] + a, b, ' ');
        crate::text::lemma_split_pair(t, a, ' ');
        crate::text::lemma_split_no_sep(b, ' ');
        assert(fields(line) == seq![t, a] + seq![b]);
        assert(fields(line) =~= seq![t, a, b]);
    } else {
        crate::text::lemma_split_pair(t, a, ' ');
    }
    assert(panel_value(fields(line)) == value);
    let l = lines.push(line);
    assert(l.drop_last() =~= lines);
    assert(l.last() == line);
    let m = without_spaces(files_dir);
    if crate::text::has_prefix(value, m) {
        lemma_remove_prefix(value, m);
    }
}

/// A `proxy` line of the panel's view turns proxies on exactly when its value
/// is `true`.
pub proof fn law_panel_proxy_shown(lines: Seq<Seq<char>>, files_dir: Seq<char>, v: Seq<char>)
    requires
        !v.contains(' '),
    ensures
        config_view_fold(lines.push("proxy"@ + seq![' '] + v), files_dir).2 == (v == seq![
            't',
            'r',
            'u',
            'e',
        ]),
{
    reveal_strlit("proxy");
    let t = "proxy"@;
    assert(!t.contains(' ')) by {
        if t.contains(' ') {
            let k = choose|k: int| 0 <= k < t.len() && t[k] == ' ';
        }
    }
    crate::text::lemma_split_pair(t, v, ' ');
    let l = lines.push(t + seq![' '] + v);
    assert(l.drop_last() =~= lines);
    assert(l.last() == t + seq![' '] + v);
}

} // verus!
