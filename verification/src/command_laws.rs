//! What holds of the last lines of all texts.
use vstd::prelude::*;

use crate::commands::{filled_lines, last_of, tail};
use crate::text::{
    find, is_space, joined, lacks, lemma_find, lemma_joined_cons, lemma_trimmed_end,
    lemma_trimmed_start, pieces, trimmed, trimmed_start,
};

verus! {

/// A line without line breaks, and without whitespace around it.
pub open spec fn is_cut(line: Seq<char>) -> bool {
    &&& lacks(line, '\n')
    &&& line.len() > 0 ==> !is_space(line[0]) && !is_space(line.last())
}

/// Lines of which none is empty, without line breaks and without whitespace around them.
pub open spec fn are_filled(lines: Seq<Seq<char>>) -> bool {
    forall|i: int| 0 <= i < lines.len() ==> is_cut(#[trigger] lines[i]) && lines[i].len() > 0
}

proof fn lemma_pieces_lack(s: Seq<char>, separator: char)
    ensures
        forall|i: int|
            0 <= i < pieces(s, separator).len() ==> lacks(
                #[trigger] pieces(s, separator)[i],
                separator,
            ),
    decreases s.len(),
{
    lemma_find(s, separator);
    let n = find(s, separator) as int;
    if n < s.len() {
        let rest = pieces(s.skip(n + 1), separator);
        lemma_pieces_lack(s.skip(n + 1), separator);
        assert forall|i: int| 0 <= i < pieces(s, separator).len() implies lacks(
            #[trigger] pieces(s, separator)[i],
            separator,
        ) by {
            if i == 0 {
                assert(pieces(s, separator)[0] == s.take(n));
            } else {
                assert(pieces(s, separator)[i] == rest[i - 1]);
            }
        }
    }
}

proof fn lemma_trimmed_is_cut(line: Seq<char>)
    requires
        lacks(line, '\n'),
    ensures
        is_cut(trimmed(line)),
{
    lemma_trimmed_start(line);
    let middle = trimmed_start(line);
    lemma_trimmed_end(middle);
    let cut = line.len() - middle.len();
    let result = trimmed(line);
    assert forall|i: int| 0 <= i < result.len() implies #[trigger] result[i] != '\n' by {
        assert(result[i] == middle[i]);
        assert(middle[i] == line[cut + i]);
    }
}

proof fn lemma_filter_filled(lines: Seq<Seq<char>>)
    requires
        forall|i: int| 0 <= i < lines.len() ==> is_cut(#[trigger] lines[i]),
    ensures
        are_filled(lines.filter(|line: Seq<char>| line.len() > 0)),
        are_filled(lines) ==> lines.filter(|line: Seq<char>| line.len() > 0) == lines,
    decreases lines.len(),
{
    reveal(Seq::filter);
    if lines.len() > 0 {
        let front = lines.drop_last();
        assert forall|i: int| 0 <= i < front.len() implies is_cut(#[trigger] front[i]) by {
            assert(front[i] == lines[i]);
        }
        lemma_filter_filled(front);
        assert(is_cut(lines[lines.len() - 1]));
        if are_filled(lines) {
            assert forall|i: int| 0 <= i < front.len() implies is_cut(#[trigger] front[i])
                && front[i].len() > 0 by {
                assert(front[i] == lines[i]);
            }
            assert(lines[lines.len() - 1].len() > 0);
            assert(front.push(lines.last()) =~= lines);
        }
    }
}

/// Lines that are filled, joined and split again, are the same lines.
proof fn lemma_split_joined(lines: Seq<Seq<char>>)
    requires
        lines.len() > 0,
        are_filled(lines),
    ensures
        pieces(joined(lines, "\n"@), '\n') == lines,
    decreases lines.len(),
{
    reveal_strlit("\n");
    let first = lines[0];
    let whole = joined(lines, "\n"@);
    lemma_find(whole, '\n');
    let n = find(whole, '\n') as int;
    assert(is_cut(first));
    if lines.len() == 1 {
        assert(whole == first);
        assert(pieces(whole, '\n') =~= lines);
    } else {
        let rest = lines.skip(1);
        assert(seq![first] + rest =~= lines);
        lemma_joined_cons(first, rest, "\n"@);
        assert forall|i: int| 0 <= i < rest.len() implies is_cut(#[trigger] rest[i])
            && rest[i].len() > 0 by {
            assert(rest[i] == lines[i + 1]);
        }
        lemma_split_joined(rest);
        assert(whole[first.len() as int] == '\n');
        assert(n == first.len()) by {
            if n < first.len() {
                assert(whole[n] == first[n]);
            }
        }
        assert(whole.take(n) =~= first);
        assert(whole.skip(n + 1) =~= joined(rest, "\n"@));
    }
}

/// The lines that a text is cut into are those that their joined text is cut into.
proof fn lemma_filled_lines_of_joined(lines: Seq<Seq<char>>)
    requires
        are_filled(lines),
    ensures
        filled_lines(joined(lines, "\n"@)) == lines,
{
    let whole = joined(lines, "\n"@);
    let cut = |line: Seq<char>| trimmed(line);
    let parts = pieces(whole, '\n');
    if lines.len() == 0 {
        reveal(Seq::filter);
        assert(whole =~= Seq::<char>::empty());
        assert(parts =~= seq![whole]);
        assert(parts.map_values(cut) =~= seq![whole]);
        let filled = |line: Seq<char>| line.len() > 0;
        assert(seq![whole].drop_last() =~= Seq::<Seq<char>>::empty());
        assert(Seq::<Seq<char>>::empty().filter(filled) =~= Seq::empty());
        assert(seq![whole].filter(filled) =~= lines);
    } else {
        lemma_split_joined(lines);
        assert forall|i: int| 0 <= i < lines.len() implies trimmed(#[trigger] lines[i])
            == lines[i] by {
            assert(is_cut(lines[i]));
        }
        assert(parts.map_values(cut) =~= lines);
        lemma_filter_filled(lines);
    }
}

/// The lines that a text is cut into are not empty, and have neither line breaks in them nor
/// whitespace around them.
pub proof fn law_lines_are_filled(text: Seq<char>)
    ensures
        are_filled(filled_lines(text)),
{
    let parts = pieces(text, '\n');
    let all = parts.map_values(|line: Seq<char>| trimmed(line));
    lemma_pieces_lack(text, '\n');
    assert forall|i: int| 0 <= i < all.len() implies is_cut(#[trigger] all[i]) by {
        assert(lacks(parts[i], '\n'));
        lemma_trimmed_is_cut(parts[i]);
    }
    lemma_filter_filled(all);
}

/// The last `m` lines of the last `n` lines are the last lines in the smaller of the two numbers.
pub proof fn law_last_lines_of_last_lines(text: Seq<char>, n: nat, m: nat)
    ensures
        filled_lines(tail(text, n)) == last_of(filled_lines(text), n),
        tail(tail(text, n), m) == tail(
            text,
            if m < n {
                m
            } else {
                n
            },
        ),
{
    let lines = filled_lines(text);
    let kept = last_of(lines, n);
    law_lines_are_filled(text);
    assert forall|i: int| 0 <= i < kept.len() implies is_cut(#[trigger] kept[i]) && kept[i].len()
        > 0 by {
        assert(kept[i] == lines[i + (lines.len() - kept.len())]);
    }
    lemma_filled_lines_of_joined(kept);
    assert(last_of(kept, m) =~= last_of(
        lines,
        if m < n {
            m
        } else {
            n
        },
    ));
}

/// No lines are nothing, and as many lines as there are, or more, are all the lines.
pub proof fn law_none_and_all_lines(text: Seq<char>, n: nat)
    requires
        filled_lines(text).len() <= n,
    ensures
        tail(text, 0) == Seq::<char>::empty(),
        tail(text, n) == joined(filled_lines(text), "\n"@),
{
    assert(last_of(filled_lines(text), 0) =~= Seq::empty());
}

} // verus!
