//! What holds of texts: their parts, their order, their lines, and numbers in them.

use crate::text::{
    contains, decimal, digit, digit_value, digits_value, has_infix, has_prefix, joined, lines_from,
    lines_of, occurs_at, parsed_unsigned, text_le, without_return,
};
use vstd::prelude::*;

verus! {

/// A text begins with another one exactly if it is that one with something behind it, and
/// holds another one exactly if it is that one with something before and behind it.
pub proof fn law_parts_of_a_text(a: Seq<char>, p: Seq<char>, b: Seq<char>, s: Seq<char>)
    ensures
        has_prefix(p + b, p),
        has_prefix(s, p) ==> s == p + s.subrange(p.len() as int, s.len() as int),
        has_infix(a + p + b, p),
        has_infix(s, p) ==> exists|at: int|
            0 <= at && at + p.len() <= s.len() && s == #[trigger] s.subrange(0, at) + p
                + s.subrange(at + p.len(), s.len() as int),
{
    assert((p + b).subrange(0, p.len() as int) =~= p);
    if has_prefix(s, p) {
        assert(s =~= p + s.subrange(p.len() as int, s.len() as int));
    }
    assert((a + p + b).subrange(a.len() as int, a.len() as int + p.len()) =~= p);
    assert(occurs_at(a + p + b, p, a.len() as int));
    if has_infix(s, p) {
        let at = choose|at: int| occurs_at(s, p, at);
        assert(s =~= s.subrange(0, at) + p + s.subrange(at + p.len(), s.len() as int));
    }
}

/// A number reads as what it was written for, as long as it is within the limit.
pub proof fn law_numbers_read_as_written(n: nat, max: nat)
    ensures
        parsed_unsigned(decimal(n), max) == if n <= max {
            Some(n)
        } else {
            None
        },
{
    lemma_decimal_digits(n);
}

proof fn lemma_decimal_digits(n: nat)
    ensures
        decimal(n).len() > 0,
        decimal(n)[0] != '+',
        digits_value(decimal(n)) == Some(n),
    decreases n,
{
    reveal_with_fuel(digits_value, 2);
    if n < 10 {
        lemma_digit(n);
        assert(decimal(n).drop_last() =~= Seq::empty());
    } else {
        lemma_decimal_digits(n / 10);
        lemma_digit(n % 10);
        assert(decimal(n).drop_last() =~= decimal(n / 10));
    }
}

proof fn lemma_digit(d: nat)
    requires
        d < 10,
    ensures
        digit_value(digit(d)) == Some(d),
        digit(d) != '+',
{
}

/// The first character in which two texts differ decides which comes first, by its code
/// point, and a text comes before its continuations.
pub proof fn law_first_difference_decides(
    p: Seq<char>,
    c: char,
    x: Seq<char>,
    d: char,
    y: Seq<char>,
)
    requires
        c < d,
    ensures
        text_le(p.push(c) + x, p.push(d) + y),
        !text_le(p.push(d) + y, p.push(c) + x),
        text_le(p, p + x),
        x.len() > 0 ==> !text_le(p + x, p),
    decreases p.len(),
{
    if p.len() > 0 {
        let q = p.drop_first();
        law_first_difference_decides(q, c, x, d, y);
        assert((p.push(c) + x).drop_first() =~= q.push(c) + x);
        assert((p.push(d) + y).drop_first() =~= q.push(d) + y);
        assert((p + x).drop_first() =~= q + x);
    }
}

proof fn lemma_line(line: Seq<char>, more: Seq<char>, rest: Seq<char>)
    requires
        !more.contains('\n'),
    ensures
        lines_from(line, more.push('\n') + rest) == seq![without_return(line + more)] + lines_from(
            Seq::empty(),
            rest,
        ),
        (line + more).len() > 0 ==> lines_from(line, more) == seq![line + more],
    decreases more.len(),
{
    if more.len() == 0 {
        assert((more.push('\n') + rest).drop_first() =~= rest);
        assert(line + more =~= line);
    } else {
        assert(more[0] != '\n') by {
            assert(more.contains(more[0]));
        }
        let tail = more.drop_first();
        assert forall|i: int| 0 <= i < tail.len() implies tail[i] != '\n' by {
            assert(more.contains(more[i + 1]));
        }
        lemma_line(line.push(more[0]), tail, rest);
        assert((more.push('\n') + rest).drop_first() =~= tail.push('\n') + rest);
        assert(line.push(more[0]) + tail =~= line + more);
    }
}

/// A text is split at its line feeds: what stands before the first is the first line,
/// without a carriage return at its end, and what stands behind it is split in the same way.
/// Text without a line feed is one line, and no text is none.
pub proof fn law_lines_end_at_line_feeds(line: Seq<char>, rest: Seq<char>)
    requires
        !line.contains('\n'),
    ensures
        line.len() == 0 || line.last() != '\r' ==> lines_of(line.push('\n') + rest) == seq![line]
            + lines_of(rest),
        lines_of(line.push('\r').push('\n') + rest) == seq![line] + lines_of(rest),
        line.len() > 0 ==> lines_of(line) == seq![line],
        lines_of(Seq::empty()).len() == 0,
{
    lemma_line(Seq::empty(), line, rest);
    assert(Seq::<char>::empty() + line =~= line);
    let returned = line.push('\r');
    assert forall|i: int| 0 <= i < returned.len() implies returned[i] != '\n' by {
        if i < line.len() {
            assert(line.contains(line[i]));
        }
    }
    lemma_line(Seq::empty(), returned, rest);
    assert(Seq::<char>::empty() + returned =~= returned);
    assert(returned.drop_last() =~= line);
}

/// Pieces are put one after the other with the separator between each two of them.
pub proof fn law_pieces_are_joined(pieces: Seq<Seq<char>>, piece: Seq<char>, sep: Seq<char>)
    ensures
        joined(Seq::empty(), sep).len() == 0,
        joined(seq![piece], sep) == piece,
        pieces.len() > 0 ==> joined(pieces.push(piece), sep) == joined(pieces, sep) + sep + piece,
{
    assert(pieces.push(piece).drop_last() =~= pieces);
}

} // verus!
