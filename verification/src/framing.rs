//! Why a head that was written line by line is read back line by line.
//!
//! The lemmas here are about lines that hold no CR LF themselves: written
//! one after another, each with its terminator, and closed by an empty line,
//! they put the first CR LF CR LF exactly where the head ends, and cutting
//! the head at its CR LFs gives the same lines again.

use vstd::prelude::*;
use crate::codec::{split_lines, write_lines};
use crate::scan::{
    boundary, crlf, first_occurrence, lemma_first_occurrence, lemma_first_occurrence_is,
    lemma_first_occurrence_none, lemma_occurs_boundary, lemma_occurs_crlf, occurs_at, single_line,
    spec_split_once, CR, LF,
};

verus! {

/// Every line is non-empty and holds no line terminator.
pub open spec fn plain_lines(lines: Seq<Seq<u8>>) -> bool {
    forall|i: int|
        0 <= i < lines.len() ==> (#[trigger] lines[i]).len() > 0 && single_line(lines[i])
}

/// A pattern stands in the second part of a sequence where it stands in the
/// whole, moved by the length of the first part.
pub proof fn lemma_occurs_shift(a: Seq<u8>, b: Seq<u8>, pat: Seq<u8>, k: int)
    requires
        0 <= k,
    ensures
        occurs_at(a + b, pat, a.len() + k) <==> occurs_at(b, pat, k),
{
    if k + pat.len() <= b.len() {
        assert((a + b).subrange(a.len() + k, a.len() + k + pat.len()) =~= b.subrange(
            k,
            k + pat.len(),
        ));
    }
}

/// Where a pattern does not begin inside the first part, its first place in
/// the whole is its first place in the second part, moved.
pub proof fn lemma_first_after_prefix(a: Seq<u8>, b: Seq<u8>, pat: Seq<u8>)
    requires
        forall|j: int| 0 <= j < a.len() ==> !occurs_at(a + b, pat, j),
    ensures
        first_occurrence(a + b, pat) == match first_occurrence(b, pat) {
            Some(k) => Some(a.len() + k),
            None => None,
        },
{
    lemma_first_occurrence(b, pat);
    match first_occurrence(b, pat) {
        Some(k) => {
            lemma_occurs_shift(a, b, pat, k);
            assert forall|j: int| 0 <= j < a.len() + k implies !occurs_at(a + b, pat, j) by {
                if j >= a.len() {
                    lemma_occurs_shift(a, b, pat, j - a.len());
                }
            }
            lemma_first_occurrence_is(a + b, pat, a.len() + k);
        },
        None => {
            assert forall|j: int| !occurs_at(a + b, pat, j) by {
                if j >= a.len() {
                    lemma_occurs_shift(a, b, pat, j - a.len());
                    assert(!occurs_at(b, pat, j - a.len()));
                }
            }
            lemma_first_occurrence_none(a + b, pat);
        },
    }
}

/// A sequence without CR LF holds no CR that an LF follows.
pub proof fn lemma_single_line_bytes(s: Seq<u8>, j: int)
    requires
        single_line(s),
        0 <= j,
        j + 1 < s.len(),
    ensures
        !(s[j] == CR && s[j + 1] == LF),
{
    lemma_occurs_crlf(s, j);
}

/// In a line followed by its terminator, the terminator is the first CR LF.
pub proof fn lemma_line_ends_at_terminator(line: Seq<u8>, tail: Seq<u8>)
    requires
        single_line(line),
    ensures
        spec_split_once(line + crlf() + tail, crlf()) == Some((line, tail)),
{
    let s = line + crlf() + tail;
    let n = line.len() as int;
    lemma_occurs_crlf(s, n);
    assert forall|j: int| 0 <= j < n implies !occurs_at(s, crlf(), j) by {
        lemma_occurs_crlf(s, j);
        if j + 1 < n {
            lemma_single_line_bytes(line, j);
        }
    }
    lemma_first_occurrence_is(s, crlf(), n);
    assert(s.take(n) =~= line);
    assert(s.skip(n + 2) =~= tail);
}

/// A part of a sequence without CR LF holds no CR LF either.
pub proof fn lemma_single_line_part(s: Seq<u8>, from: int, to: int)
    requires
        single_line(s),
        0 <= from <= to <= s.len(),
    ensures
        single_line(s.subrange(from, to)),
{
    let part = s.subrange(from, to);
    assert forall|j: int| !occurs_at(part, crlf(), j) by {
        lemma_occurs_crlf(part, j);
        lemma_occurs_crlf(s, from + j);
        assert(!occurs_at(s, crlf(), from + j));
    }
}

/// What stands before the first CR LF of a sequence holds no CR LF.
pub proof fn lemma_first_line_is_single(s: Seq<u8>)
    requires
        first_occurrence(s, crlf()) is Some,
    ensures
        single_line(s.take(first_occurrence(s, crlf())->Some_0)),
{
    lemma_first_occurrence(s, crlf());
    let i = first_occurrence(s, crlf())->Some_0;
    let line = s.take(i);
    assert forall|j: int| !occurs_at(line, crlf(), j) by {
        lemma_occurs_crlf(line, j);
        lemma_occurs_crlf(s, j);
        if 0 <= j && j + 2 <= line.len() {
            assert(!occurs_at(s, crlf(), j));
        }
    }
}

/// Every line that `split_lines` gives holds no CR LF.
pub proof fn lemma_split_lines_are_single(s: Seq<u8>, k: int)
    requires
        0 <= k < split_lines(s).len(),
    ensures
        single_line(split_lines(s)[k]),
    decreases s.len(),
{
    lemma_first_occurrence(s, crlf());
    match spec_split_once(s, crlf()) {
        Some((line, rest)) => {
            lemma_first_line_is_single(s);
            if k > 0 {
                lemma_split_lines_are_single(rest, k - 1);
            }
        },
        None => {},
    }
}

/// A sequence without CR LF is one line.
pub proof fn lemma_split_single_line(line: Seq<u8>)
    requires
        single_line(line),
    ensures
        split_lines(line) == seq![line],
{
    lemma_first_occurrence_none(line, crlf());
}

/// Writing one line and then others writes the line, its terminator, and
/// then the others.
pub proof fn lemma_write_lines_front(line: Seq<u8>, others: Seq<Seq<u8>>)
    ensures
        write_lines(seq![line] + others) == line + crlf() + write_lines(others),
    decreases others.len(),
{
    let all = seq![line] + others;
    if others.len() == 0 {
        assert(all.drop_last() =~= Seq::<Seq<u8>>::empty());
        assert(write_lines(all.drop_last()) =~= Seq::<u8>::empty());
        assert(write_lines(others) =~= Seq::<u8>::empty());
        assert(write_lines(all) =~= line + crlf() + write_lines(others));
    } else {
        lemma_write_lines_front(line, others.drop_last());
        assert(all.drop_last() =~= seq![line] + others.drop_last());
        assert(all.last() == others.last());
        assert(write_lines(all) =~= line + crlf() + write_lines(others));
    }
}

/// What was written: the lines joined by CR LF, without the last terminator.
pub open spec fn joined(lines: Seq<Seq<u8>>) -> Seq<u8> {
    write_lines(lines).take(write_lines(lines).len() - 2)
}

/// One line joined is the line; more lines joined are the first, a CR LF,
/// and the others joined.
pub proof fn lemma_joined_front(line: Seq<u8>, others: Seq<Seq<u8>>)
    ensures
        joined(seq![line] + others) == if others.len() == 0 {
            line
        } else {
            line + crlf() + joined(others)
        },
        others.len() > 0 ==> write_lines(others) == joined(others) + crlf(),
{
    lemma_write_lines_front(line, others);
    let written = write_lines(others);
    if others.len() == 0 {
        assert(written =~= Seq::<u8>::empty());
        assert(joined(seq![line] + others) =~= line);
    } else {
        assert(written =~= written.take(written.len() - 2) + crlf());
        assert(joined(seq![line] + others) =~= line + crlf() + joined(others));
    }
}

/// No CR LF CR LF begins inside a line without CR LF that its terminator
/// follows.
pub proof fn lemma_no_boundary_in_line(line: Seq<u8>, after: Seq<u8>, j: int)
    requires
        single_line(line),
        0 <= j < line.len(),
    ensures
        !occurs_at(line + crlf() + after, boundary(), j),
{
    let whole = line + crlf() + after;
    lemma_occurs_boundary(whole, j);
    if j + 1 < line.len() {
        lemma_single_line_bytes(line, j);
        assert(whole[j] == line[j]);
        assert(whole[j + 1] == line[j + 1]);
    } else {
        assert(whole[j + 1] == CR);
    }
}

/// No CR LF CR LF begins at the terminator of a line that a plain line
/// follows.
pub proof fn lemma_no_boundary_between_lines(line: Seq<u8>, next: Seq<u8>, after: Seq<u8>, j: int)
    requires
        next.len() > 0,
        single_line(next),
        line.len() <= j < line.len() + 2,
    ensures
        !occurs_at(line + crlf() + (next + crlf() + after), boundary(), j),
{
    let whole = line + crlf() + (next + crlf() + after);
    let n = line.len() as int;
    lemma_occurs_boundary(whole, j);
    if j == n {
        assert(whole[n + 2] == next[0]);
        if next.len() >= 2 {
            assert(whole[n + 3] == next[1]);
            lemma_single_line_bytes(next, 0);
        } else {
            assert(whole[n + 3] == CR);
        }
    } else {
        assert(whole[j] == LF);
    }
}

/// Cutting what was joined gives the lines again.
pub proof fn lemma_split_joined(lines: Seq<Seq<u8>>)
    requires
        lines.len() > 0,
        plain_lines(lines),
    ensures
        split_lines(joined(lines)) == lines,
    decreases lines.len(),
{
    let first = lines[0];
    let others = lines.skip(1);
    assert(lines =~= seq![first] + others);
    assert(single_line(first));
    lemma_joined_front(first, others);
    if others.len() == 0 {
        lemma_split_single_line(first);
    } else {
        assert(plain_lines(others)) by {
            assert forall|i: int| 0 <= i < others.len() implies (#[trigger] others[i]).len() > 0
                && single_line(others[i]) by {
                assert(others[i] == lines[i + 1]);
            }
        }
        lemma_split_joined(others);
        lemma_line_ends_at_terminator(first, joined(others));
    }
}

/// The first CR LF CR LF of what was written and closed by an empty line
/// is the last line's terminator with the empty line: what stands before it
/// is the lines joined, what follows it is the tail.
pub proof fn lemma_boundary_of_written(lines: Seq<Seq<u8>>, tail: Seq<u8>)
    requires
        lines.len() > 0,
        plain_lines(lines),
    ensures
        spec_split_once(write_lines(lines) + crlf() + tail, boundary()) == Some(
            (joined(lines), tail),
        ),
    decreases lines.len(),
{
    let first = lines[0];
    let others = lines.skip(1);
    assert(lines =~= seq![first] + others);
    assert(first.len() > 0 && single_line(first));
    lemma_write_lines_front(first, others);
    lemma_joined_front(first, others);
    let n = first.len() as int;
    let whole = write_lines(lines) + crlf() + tail;
    if others.len() == 0 {
        let after = crlf() + tail;
        assert(write_lines(others) =~= Seq::<u8>::empty());
        assert(whole =~= first + crlf() + after);
        assert forall|j: int| 0 <= j < n implies !occurs_at(whole, boundary(), j) by {
            lemma_no_boundary_in_line(first, after, j);
        }
        lemma_occurs_boundary(whole, n);
        lemma_first_occurrence_is(whole, boundary(), n);
        assert(whole.take(n) =~= first);
        assert(whole.skip(n + 4) =~= tail);
    } else {
        let next = others[0];
        assert(next.len() > 0 && single_line(next));
        assert(plain_lines(others)) by {
            assert forall|i: int| 0 <= i < others.len() implies (#[trigger] others[i]).len() > 0
                && single_line(others[i]) by {
                assert(others[i] == lines[i + 1]);
            }
        }
        lemma_boundary_of_written(others, tail);
        let prefix = first + crlf();
        let inner = write_lines(others) + crlf() + tail;
        assert(whole =~= prefix + inner);
        assert(others =~= seq![next] + others.skip(1));
        lemma_write_lines_front(next, others.skip(1));
        let after = write_lines(others.skip(1)) + crlf() + tail;
        assert(inner =~= next + crlf() + after);
        assert(whole =~= first + crlf() + (next + crlf() + after));
        assert forall|j: int| 0 <= j < prefix.len() implies !occurs_at(
            prefix + inner,
            boundary(),
            j,
        ) by {
            if j < n {
                lemma_no_boundary_in_line(first, next + crlf() + after, j);
            } else {
                lemma_no_boundary_between_lines(first, next, after, j);
            }
        }
        lemma_first_after_prefix(prefix, inner, boundary());
        lemma_first_occurrence(inner, boundary());
        let p = first_occurrence(inner, boundary())->Some_0;
        assert(whole.take(prefix.len() + p) =~= prefix + inner.take(p));
        assert(whole.skip(prefix.len() + p + 4) =~= inner.skip(p + 4));
    }
}

/// The core of the format. Plain lines, written out and closed by an empty
/// line, are found again: the first CR LF CR LF is the last line's
/// terminator with the empty line, all that follows it is the tail, and
/// what stands before it splits into the lines that were written.
pub proof fn lemma_head_is_framed(lines: Seq<Seq<u8>>, tail: Seq<u8>)
    requires
        lines.len() > 0,
        plain_lines(lines),
    ensures
        spec_split_once(write_lines(lines) + crlf() + tail, boundary()) == Some(
            (joined(lines), tail),
        ),
        split_lines(joined(lines)) == lines,
{
    lemma_boundary_of_written(lines, tail);
    lemma_split_joined(lines);
}

} // verus!
