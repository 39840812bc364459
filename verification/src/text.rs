//! Text as sequences of characters: searching it and cutting it into pieces.

use vstd::prelude::*;
use vstd::slice::slice_subrange;

verus! {

/// `needle` stands in `hay` at position `at`.
pub open spec fn occurs_at(hay: Seq<char>, needle: Seq<char>, at: int) -> bool {
    &&& 0 <= at
    &&& at + needle.len() <= hay.len()
    &&& hay.subrange(at, at + needle.len()) == needle
}

/// `needle` stands somewhere in `hay`. The empty needle stands everywhere.
pub open spec fn contains(hay: Seq<char>, needle: Seq<char>) -> bool {
    exists|at: int| occurs_at(hay, needle, at)
}

/// `hay` begins with `prefix`.
pub open spec fn starts_with(hay: Seq<char>, prefix: Seq<char>) -> bool {
    occurs_at(hay, prefix, 0)
}

/// The pieces that the occurrences of `sep` cut `text` into, in order.
///
/// Read from the left, each character either is `sep` and opens a new, empty
/// piece, or is added to the piece that is open. So there is always one piece
/// more than there are separators, and pieces may be empty.
pub open spec fn split(text: Seq<char>, sep: char) -> Seq<Seq<char>>
    decreases text.len(),
{
    if text.len() == 0 {
        seq![Seq::<char>::empty()]
    } else {
        let before = split(text.drop_last(), sep);
        if text.last() == sep {
            before.push(Seq::<char>::empty())
        } else {
            before.drop_last().push(before.last().push(text.last()))
        }
    }
}

/// The pieces put together again, with `sep` between each two.
pub open spec fn join(pieces: Seq<Seq<char>>, sep: char) -> Seq<char>
    decreases pieces.len(),
{
    if pieces.len() == 0 {
        Seq::<char>::empty()
    } else if pieces.len() == 1 {
        pieces[0]
    } else {
        join(pieces.drop_last(), sep).push(sep) + pieces.last()
    }
}

/// A pair of positions marks a stretch of `text`.
pub open spec fn within(text: Seq<char>, range: (usize, usize)) -> bool {
    range.0 <= range.1 <= text.len()
}

/// The stretch of `text` that a pair of positions marks.
pub open spec fn stretch(text: Seq<char>, range: (usize, usize)) -> Seq<char> {
    text.subrange(range.0 as int, range.1 as int)
}

/// The stretches of `text` that a list of pairs marks.
pub open spec fn cut(text: Seq<char>, ranges: Seq<(usize, usize)>) -> Seq<Seq<char>> {
    Seq::new(ranges.len(), |i: int| stretch(text, ranges[i]))
}

/// Every pair of the list marks a stretch of `text`.
pub open spec fn all_within(text: Seq<char>, ranges: Seq<(usize, usize)>) -> bool {
    forall|i: int| 0 <= i < ranges.len() ==> within(text, #[trigger] ranges[i])
}

/// Splitting always yields at least one piece.
pub proof fn lemma_split_nonempty(text: Seq<char>, sep: char)
    ensures
        split(text, sep).len() >= 1,
    decreases text.len(),
{
    if text.len() > 0 {
        lemma_split_nonempty(text.drop_last(), sep);
    }
}

/// No piece of a split holds the separator, and the pieces joined by the
/// separator are the text again: `split` loses nothing and cuts everywhere.
pub proof fn law_split_keeps_the_text(text: Seq<char>, sep: char)
    ensures
        join(split(text, sep), sep) == text,
        forall|i: int, j: int|
            0 <= i < split(text, sep).len() && 0 <= j < split(text, sep)[i].len() ==> split(
                text,
                sep,
            )[i][j] != sep,
    decreases text.len(),
{
    lemma_split_nonempty(text, sep);
    if text.len() == 0 {
        assert(join(split(text, sep), sep) =~= text);
    } else {
        let shorter = text.drop_last();
        let before = split(shorter, sep);
        law_split_keeps_the_text(shorter, sep);
        lemma_split_nonempty(shorter, sep);
        let pieces = split(text, sep);
        if text.last() == sep {
            assert(pieces.drop_last() =~= before);
            assert(join(pieces, sep) =~= text);
        } else {
            let grown = before.last().push(text.last());
            assert(pieces.last() == grown);
            if before.len() == 1 {
                assert(join(before, sep) == before[0]);
                assert(pieces.len() == 1);
                assert(shorter.push(text.last()) =~= text);
                assert(join(pieces, sep) =~= text);
            } else {
                let head = join(before.drop_last(), sep).push(sep);
                assert(pieces.len() == before.len());
                assert(pieces.drop_last() =~= before.drop_last());
                assert(join(before, sep) == head + before.last());
                assert(join(pieces, sep) == head + grown);
                assert(head + grown =~= (head + before.last()).push(text.last()));
                assert(shorter.push(text.last()) =~= text);
            }
        }
    }
}

/// The characters of a string, one by one.
pub fn chars_of(text: &str) -> (chars: Vec<char>)
    ensures
        chars@ == text@,
{
    let mut chars: Vec<char> = Vec::new();
    for c in it: text.chars()
        invariant
            it.seq() == text@,
            chars@ == it.seq().take(it.index() as int),
    {
        chars.push(c);
    }
    chars
}

/// Tells whether `needle` stands in `hay` at position `at`.
pub fn matches_at(hay: &[char], needle: &[char], at: usize) -> (found: bool)
    ensures
        found == occurs_at(hay@, needle@, at as int),
{
    if at > hay.len() || needle.len() > hay.len() - at {
        return false;
    }
    let mut k: usize = 0;
    while k < needle.len()
        invariant
            k <= needle.len(),
            at + needle.len() <= hay.len(),
            forall|j: int| 0 <= j < k ==> hay@[at + j] == needle@[j],
        decreases needle.len() - k,
    {
        if hay[at + k] != needle[k] {
            proof {
                let part = hay@.subrange(at as int, at + needle.len());
                assert(part[k as int] == hay@[at + k]);
            }
            return false;
        }
        k += 1;
    }
    assert(hay@.subrange(at as int, at + needle.len()) =~= needle@);
    true
}

/// Tells whether `needle` stands somewhere in `hay`.
pub fn find(hay: &[char], needle: &[char]) -> (found: bool)
    ensures
        found == contains(hay@, needle@),
{
    if needle.len() > hay.len() {
        return false;
    }
    let last: usize = hay.len() - needle.len();
    let mut at: usize = 0;
    while at < last
        invariant
            last == hay.len() - needle.len(),
            at <= last,
            forall|k: int| 0 <= k < at ==> !occurs_at(hay@, needle@, k),
        decreases last - at,
    {
        if matches_at(hay, needle, at) {
            return true;
        }
        at += 1;
    }
    matches_at(hay, needle, last)
}

/// Cuts `text` at each `sep`, and returns where each piece begins and ends.
pub fn split_ranges(text: &[char], sep: char) -> (ranges: Vec<(usize, usize)>)
    ensures
        all_within(text@, ranges@),
        cut(text@, ranges@) == split(text@, sep),
{
    let mut ranges: Vec<(usize, usize)> = Vec::new();
    let mut start: usize = 0;
    let mut i: usize = 0;
    proof {
        assert(text@.take(0) =~= Seq::<char>::empty());
        assert(cut(text@, ranges@).push(text@.subrange(0, 0)) =~= seq![Seq::<char>::empty()]);
    }
    while i < text.len()
        invariant
            start <= i <= text.len(),
            all_within(text@, ranges@),
            cut(text@, ranges@).push(text@.subrange(start as int, i as int)) == split(
                text@.take(i as int),
                sep,
            ),
        decreases text.len() - i,
    {
        let ghost seen = text@.take(i as int);
        let ghost more = text@.take(i + 1);
        let ghost before = cut(text@, ranges@);
        let ghost open = text@.subrange(start as int, i as int);
        proof {
            assert(more.drop_last() =~= seen);
            assert(more.last() == text@[i as int]);
        }
        if text[i] == sep {
            ranges.push((start, i));
            start = i + 1;
            proof {
                assert(cut(text@, ranges@) =~= before.push(open));
                assert(text@.subrange(start as int, i + 1) =~= Seq::<char>::empty());
            }
        } else {
            proof {
                assert(before.push(open).drop_last() =~= before);
                assert(text@.subrange(start as int, i + 1) =~= open.push(text@[i as int]));
            }
        }
        i += 1;
    }
    let ghost before = cut(text@, ranges@);
    ranges.push((start, i));
    proof {
        assert(text@.take(i as int) =~= text@);
        assert(cut(text@, ranges@) =~= before.push(text@.subrange(start as int, i as int)));
    }
    ranges
}

/// The stretch of `text` from `range.0` up to `range.1`, borrowed.
pub fn stretch_of<'a>(text: &'a [char], range: (usize, usize)) -> (part: &'a [char])
    requires
        within(text@, range),
    ensures
        part@ == stretch(text@, range),
{
    slice_subrange(text, range.0, range.1)
}

} // verus!
