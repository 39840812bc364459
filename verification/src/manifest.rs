//! The two manifests of a kernel's module tree.
//!
//! `modules.order` lists the modules of a kernel, one relative path to a line.
//! `modules.dep` holds one record to a line: a module's path, then the paths of
//! the modules it needs, in the order in which they are to be loaded, with
//! single spaces between them.

use vstd::prelude::*;
use vstd::string::*;
use crate::text::{
    all_within, chars_of, contains, cut, find, lemma_split_nonempty, matches_at, split,
    split_ranges, starts_with, stretch, stretch_of, within,
};

verus! {

/// A line without the carriage return that may end it.
pub open spec fn strip_cr(line: Seq<char>) -> Seq<char> {
    if line.len() > 0 && line.last() == '\r' {
        line.drop_last()
    } else {
        line
    }
}

/// The lines of a text.
///
/// A line ends with a line feed, which is not part of it, nor is a carriage
/// return just before the line feed. What follows the last line feed is a line
/// too, unless it is empty; it keeps a carriage return at its end.
pub open spec fn lines(text: Seq<char>) -> Seq<Seq<char>> {
    let pieces = split(text, '\n');
    let closed = Seq::new((pieces.len() - 1) as nat, |i: int| strip_cr(pieces[i]));
    if pieces.last().len() == 0 {
        closed
    } else {
        closed.push(pieces.last())
    }
}

/// What a line of the order manifest must hold to be the entry of the module
/// `name`: a slash, the name, and `.ko`.
pub open spec fn entry_mark(name: Seq<char>) -> Seq<char> {
    seq!['/'] + name + seq!['.', 'k', 'o']
}

/// The last of `lines` that holds `mark`, if any does.
pub open spec fn last_holding(lines: Seq<Seq<char>>, mark: Seq<char>) -> Option<Seq<char>>
    decreases lines.len(),
{
    if lines.len() == 0 {
        None
    } else if contains(lines.last(), mark) {
        Some(lines.last())
    } else {
        last_holding(lines.drop_last(), mark)
    }
}

/// The relative path of the module `name` in the order manifest `order`: the
/// last line that holds the name's mark.
pub open spec fn path_of(order: Seq<char>, name: Seq<char>) -> Option<Seq<char>> {
    last_holding(lines(order), entry_mark(name))
}

/// What one record says the module needs: every token after the first, where
/// the record is cut at each single space.
pub open spec fn needs(record: Seq<char>) -> Seq<Seq<char>> {
    split(record, ' ').drop_first()
}

/// What the records among `lines` that begin with `module` say it needs, one
/// record after the other.
pub open spec fn needs_of(lines: Seq<Seq<char>>, module: Seq<char>) -> Seq<Seq<char>>
    decreases lines.len(),
{
    if lines.len() == 0 {
        Seq::<Seq<char>>::empty()
    } else if starts_with(lines.last(), module) {
        needs_of(lines.drop_last(), module) + needs(lines.last())
    } else {
        needs_of(lines.drop_last(), module)
    }
}

/// The modules that `module` needs according to the dependency manifest
/// `dep`, in the order in which they are to be loaded.
pub open spec fn dependencies_of(dep: Seq<char>, module: Seq<char>) -> Seq<Seq<char>> {
    needs_of(lines(dep), module)
}

/// Where several lines hold the mark, the last of them is taken; where none
/// does, nothing is.
pub proof fn law_last_match_wins(lines: Seq<Seq<char>>, mark: Seq<char>)
    ensures
        match last_holding(lines, mark) {
            None => forall|i: int| 0 <= i < lines.len() ==> !contains(#[trigger] lines[i], mark),
            Some(line) => exists|i: int|
                {
                    &&& 0 <= i < lines.len()
                    &&& #[trigger] lines[i] == line
                    &&& contains(line, mark)
                    &&& forall|j: int| i < j < lines.len() ==> !contains(#[trigger] lines[j], mark)
                },
        },
    decreases lines.len(),
{
    if lines.len() > 0 {
        let last = lines.len() - 1;
        if contains(lines.last(), mark) {
            assert(lines[last] == lines.last());
        } else {
            let shorter = lines.drop_last();
            law_last_match_wins(shorter, mark);
            match last_holding(shorter, mark) {
                None => {
                    assert forall|i: int| 0 <= i < lines.len() implies !contains(
                        #[trigger] lines[i],
                        mark,
                    ) by {
                        if i < last {
                            assert(shorter[i] == lines[i]);
                        }
                    }
                },
                Some(line) => {
                    let i = choose|i: int|
                        {
                            &&& 0 <= i < shorter.len()
                            &&& #[trigger] shorter[i] == line
                            &&& contains(line, mark)
                            &&& forall|j: int|
                                i < j < shorter.len() ==> !contains(#[trigger] shorter[j], mark)
                        };
                    assert(lines[i] == line);
                    assert forall|j: int| i < j < lines.len() implies !contains(
                        #[trigger] lines[j],
                        mark,
                    ) by {
                        if j < last {
                            assert(shorter[j] == lines[j]);
                        }
                    }
                },
            }
        }
    }
}

/// Where each line of a text begins and ends.
pub fn line_ranges(text: &[char]) -> (ranges: Vec<(usize, usize)>)
    ensures
        all_within(text@, ranges@),
        cut(text@, ranges@) == lines(text@),
{
    let pieces = split_ranges(text, '\n');
    proof {
        lemma_split_nonempty(text@, '\n');
    }
    let ghost parts = split(text@, '\n');
    let closed: usize = pieces.len() - 1;
    let mut ranges: Vec<(usize, usize)> = Vec::new();
    let mut i: usize = 0;
    while i < closed
        invariant
            i <= closed,
            closed == pieces.len() - 1,
            parts == split(text@, '\n'),
            all_within(text@, pieces@),
            cut(text@, pieces@) == parts,
            all_within(text@, ranges@),
            cut(text@, ranges@) == Seq::new(i as nat, |k: int| strip_cr(parts[k])),
        decreases closed - i,
    {
        let (from, to) = pieces[i];
        let ghost before = cut(text@, ranges@);
        proof {
            assert(within(text@, pieces@[i as int]));
            assert(parts[i as int] == stretch(text@, pieces@[i as int]));
        }
        let line: (usize, usize) = if to > from && text[to - 1] == '\r' {
            (from, to - 1)
        } else {
            (from, to)
        };
        proof {
            assert(stretch(text@, line) =~= strip_cr(parts[i as int]));
        }
        ranges.push(line);
        proof {
            assert(cut(text@, ranges@) =~= before.push(strip_cr(parts[i as int])));
            assert(before.push(strip_cr(parts[i as int])) =~= Seq::new(
                (i + 1) as nat,
                |k: int| strip_cr(parts[k]),
            ));
        }
        i += 1;
    }
    let (from, to) = pieces[closed];
    proof {
        assert(within(text@, pieces@[closed as int]));
        assert(parts.last() == stretch(text@, pieces@[closed as int]));
    }
    if to > from {
        let ghost before = cut(text@, ranges@);
        ranges.push((from, to));
        proof {
            assert(cut(text@, ranges@) =~= before.push(parts.last()));
        }
    }
    ranges
}

/// Looks the module `name` up in the text of an order manifest.
///
/// Returns the last line that holds a slash, the name and `.ko`, and `None`
/// where no line does. A name that is part of another module's name finds that
/// module's line too.
pub fn find_path(order: &str, name: &str) -> (path: Option<String>)
    ensures
        match path {
            Some(p) => path_of(order@, name@) == Some(p@),
            None => path_of(order@, name@) is None,
        },
{
    let text = chars_of(order);
    let mut mark: Vec<char> = Vec::new();
    mark.push('/');
    let mut given = chars_of(name);
    mark.append(&mut given);
    mark.push('.');
    mark.push('k');
    mark.push('o');
    assert(mark@ =~= entry_mark(name@));
    let ranges = line_ranges(text.as_slice());
    let ghost all = lines(order@);
    let mut best: Option<(usize, usize)> = None;
    let mut i: usize = 0;
    while i < ranges.len()
        invariant
            i <= ranges.len(),
            text@ == order@,
            mark@ == entry_mark(name@),
            all == lines(order@),
            all_within(text@, ranges@),
            cut(text@, ranges@) == all,
            match best {
                Some(r) => within(text@, r) && last_holding(all.take(i as int), mark@) == Some(
                    stretch(text@, r),
                ),
                None => last_holding(all.take(i as int), mark@) is None,
            },
        decreases ranges.len() - i,
    {
        let range = ranges[i];
        proof {
            assert(within(text@, ranges@[i as int]));
            assert(all[i as int] == stretch(text@, ranges@[i as int]));
            assert(all.take(i + 1).drop_last() =~= all.take(i as int));
            assert(all.take(i + 1).last() == all[i as int]);
        }
        if find(stretch_of(text.as_slice(), range), mark.as_slice()) {
            best = Some(range);
        }
        i += 1;
    }
    assert(all.take(i as int) =~= all);
    match best {
        Some(r) => Some(order.substring_char(r.0, r.1).to_owned()),
        None => None,
    }
}

/// Looks up what the module at the relative path `module` needs, in the text
/// of a dependency manifest.
///
/// Every line that begins with `module` counts as a record of it. A record is
/// cut at each single space; its first token holds the module's own path and
/// is left out. The result holds the other tokens of all records, in the order
/// of the text. It is empty where no line begins with `module`.
pub fn find_dependencies(dep: &str, module: &str) -> (paths: Vec<String>)
    ensures
        paths.deep_view() == dependencies_of(dep@, module@),
{
    let text = chars_of(dep);
    let key = chars_of(module);
    let ranges = line_ranges(text.as_slice());
    let ghost all = lines(dep@);
    let mut paths: Vec<String> = Vec::new();
    let mut i: usize = 0;
    assert(paths.deep_view() =~= needs_of(all.take(0), key@));
    while i < ranges.len()
        invariant
            i <= ranges.len(),
            text@ == dep@,
            key@ == module@,
            all == lines(dep@),
            all_within(text@, ranges@),
            cut(text@, ranges@) == all,
            paths.deep_view() == needs_of(all.take(i as int), key@),
        decreases ranges.len() - i,
    {
        let range = ranges[i];
        proof {
            assert(within(text@, ranges@[i as int]));
            assert(all[i as int] == stretch(text@, ranges@[i as int]));
            assert(all.take(i + 1).drop_last() =~= all.take(i as int));
            assert(all.take(i + 1).last() == all[i as int]);
        }
        let record = stretch_of(text.as_slice(), range);
        if matches_at(record, key.as_slice(), 0) {
            let tokens = split_ranges(record, ' ');
            proof {
                lemma_split_nonempty(record@, ' ');
            }
            let ghost found = paths.deep_view();
            let ghost wanted = needs(record@);
            let mut k: usize = 1;
            assert(paths.deep_view() =~= found + wanted.take(0));
            while k < tokens.len()
                invariant
                    1 <= k <= tokens.len(),
                    text@ == dep@,
                    within(text@, range),
                    record@ == stretch(text@, range),
                    all_within(record@, tokens@),
                    cut(record@, tokens@) == split(record@, ' '),
                    wanted == needs(record@),
                    paths.deep_view() == found + wanted.take(k - 1),
                decreases tokens.len() - k,
            {
                let token = tokens[k];
                let ghost so_far = paths.deep_view();
                proof {
                    assert(within(record@, tokens@[k as int]));
                    assert(split(record@, ' ')[k as int] == stretch(record@, tokens@[k as int]));
                    assert(wanted[k - 1] == split(record@, ' ')[k as int]);
                }
                let path = dep.substring_char(range.0 + token.0, range.0 + token.1).to_owned();
                proof {
                    assert(path@ =~= stretch(record@, token));
                }
                paths.push(path);
                proof {
                    assert(paths.deep_view() =~= so_far.push(path@));
                    assert(wanted.take(k as int) =~= wanted.take(k - 1).push(wanted[k - 1]));
                    assert(so_far.push(path@) =~= found + wanted.take(k as int));
                }
                k += 1;
            }
            assert(wanted.take(k - 1) =~= wanted);
        }
        i += 1;
    }
    assert(all.take(i as int) =~= all);
    paths
}

} // verus!
