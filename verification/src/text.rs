//! Characters, lines and tab-separated fields.
//!
//! Everything here is stated over `Seq<char>`, the view of `str` and `String`.

use vstd::prelude::*;

verus! {

/// `String::push` of the standard library: the character is added at the end
/// and the characters already there stay as they are. Trusted, not proved.
pub assume_specification[ String::push ](s: &mut String, c: char)
    ensures
        final(s)@ == old(s)@.push(c),
;

/// The characters that carry the Unicode property `White_Space`.
pub open spec fn is_whitespace(c: char) -> bool {
    let n = c as u32;
    ||| 0x09 <= n <= 0x0D
    ||| n == 0x20
    ||| n == 0x85
    ||| n == 0xA0
    ||| n == 0x1680
    ||| 0x2000 <= n <= 0x200A
    ||| n == 0x2028
    ||| n == 0x2029
    ||| n == 0x202F
    ||| n == 0x205F
    ||| n == 0x3000
}

/// A line is blank when it holds nothing but whitespace; the empty line is blank.
pub open spec fn is_blank(s: Seq<char>) -> bool {
    forall|i: int| 0 <= i < s.len() ==> is_whitespace(#[trigger] s[i])
}

/// The pieces of `s` between occurrences of `sep`, in order. There is always
/// at least one piece, and a separator at either end leaves an empty piece there.
pub open spec fn split_on(s: Seq<char>, sep: char) -> Seq<Seq<char>>
    decreases s.len(),
{
    if s.len() == 0 {
        seq![Seq::<char>::empty()]
    } else {
        let before = split_on(s.drop_last(), sep);
        if s.last() == sep {
            before.push(Seq::<char>::empty())
        } else {
            before.update(before.len() - 1, before.last().push(s.last()))
        }
    }
}

/// The pieces joined again, with `sep` between neighbours.
pub open spec fn join_with(pieces: Seq<Seq<char>>, sep: char) -> Seq<char>
    decreases pieces.len(),
{
    if pieces.len() == 0 {
        Seq::<char>::empty()
    } else if pieces.len() == 1 {
        pieces[0]
    } else {
        join_with(pieces.drop_last(), sep).push(sep) + pieces.last()
    }
}

/// How often `c` occurs in `s`.
pub open spec fn occurrences(s: Seq<char>, c: char) -> nat
    decreases s.len(),
{
    if s.len() == 0 {
        0
    } else {
        occurrences(s.drop_last(), c) + if s.last() == c {
            1nat
        } else {
            0nat
        }
    }
}

/// `s` without one carriage return at its end, if it has one there.
pub open spec fn strip_cr(s: Seq<char>) -> Seq<char> {
    if s.len() > 0 && s.last() == '\r' {
        s.drop_last()
    } else {
        s
    }
}

/// The lines of a text. A line ends at a line feed; a carriage return directly
/// before that line feed belongs to the line ending. What follows the last line
/// feed is a line of its own unless it is empty, and keeps a carriage return at
/// its end.
pub open spec fn lines_of(s: Seq<char>) -> Seq<Seq<char>> {
    let pieces = split_on(s, '\n');
    let ended = Seq::new((pieces.len() - 1) as nat, |i: int| strip_cr(pieces[i]));
    if pieces.last().len() == 0 {
        ended
    } else {
        ended.push(pieces.last())
    }
}

/// Splitting yields one piece more than there are separators.
pub proof fn lemma_split_count(s: Seq<char>, sep: char)
    ensures
        split_on(s, sep).len() == occurrences(s, sep) + 1,
    decreases s.len(),
{
    if s.len() > 0 {
        lemma_split_count(s.drop_last(), sep);
    }
}

/// No piece of a split holds the separator.
pub proof fn lemma_split_pieces_hold_no_separator(s: Seq<char>, sep: char)
    ensures
        forall|i: int, j: int|
            0 <= i < split_on(s, sep).len() && 0 <= j < split_on(s, sep)[i].len()
                ==> #[trigger] split_on(s, sep)[i][j] != sep,
    decreases s.len(),
{
    if s.len() > 0 {
        lemma_split_count(s.drop_last(), sep);
        lemma_split_pieces_hold_no_separator(s.drop_last(), sep);
    }
}

/// Joining the pieces of a split with the separator gives the text back.
pub proof fn lemma_join_undoes_split(s: Seq<char>, sep: char)
    ensures
        join_with(split_on(s, sep), sep) == s,
    decreases s.len(),
{
    if s.len() > 0 {
        let shorter = s.drop_last();
        let before = split_on(shorter, sep);
        lemma_split_count(shorter, sep);
        lemma_join_undoes_split(shorter, sep);
        let pieces = split_on(s, sep);
        if s.last() == sep {
            assert(pieces.drop_last() == before);
        } else if before.len() > 1 {
            assert(pieces.drop_last() == before.drop_last());
            assert(shorter.push(s.last()) == s);
        }
    }
}

/// No line of a text holds a line feed.
pub proof fn lemma_lines_hold_no_line_feed(s: Seq<char>)
    ensures
        forall|i: int, j: int|
            0 <= i < lines_of(s).len() && 0 <= j < lines_of(s)[i].len() ==> #[trigger] lines_of(
                s,
            )[i][j] != '\n',
{
    let pieces = split_on(s, '\n');
    lemma_split_count(s, '\n');
    lemma_split_pieces_hold_no_separator(s, '\n');
    assert forall|i: int, j: int|
        0 <= i < lines_of(s).len() && 0 <= j < lines_of(s)[i].len() implies #[trigger] lines_of(
        s,
    )[i][j] != '\n' by {
        assert(lines_of(s)[i][j] == pieces[i][j]);
    }
}

/// Whether `c` is a whitespace character.
pub fn char_is_whitespace(c: char) -> (b: bool)
    ensures
        b == is_whitespace(c),
{
    let n: u32 = c as u32;
    (0x09 <= n && n <= 0x0D) || n == 0x20 || n == 0x85 || n == 0xA0 || n == 0x1680 || (0x2000 <= n
        && n <= 0x200A) || n == 0x2028 || n == 0x2029 || n == 0x202F || n == 0x205F || n == 0x3000
}

/// Whether a line holds nothing but whitespace.
pub fn line_is_blank(line: &str) -> (b: bool)
    ensures
        b == is_blank(line@),
{
    for c in it: line.chars()
        invariant
            it.seq() == line@,
            forall|i: int| 0 <= i < it.index() ==> is_whitespace(#[trigger] line@[i]),
    {
        if !char_is_whitespace(c) {
            return false;
        }
    }
    true
}

/// Splits `s` at every occurrence of `sep`.
pub fn split_text(s: &str, sep: char) -> (pieces: Vec<String>)
    ensures
        pieces.deep_view() == split_on(s@, sep),
{
    let mut done: Vec<String> = Vec::new();
    let mut piece: String = String::new();
    for c in it: s.chars()
        invariant
            it.seq() == s@,
            done.deep_view().push(piece@) == split_on(s@.take(it.index() as int), sep),
    {
        assert(s@.take(it.index() as int + 1).drop_last() == s@.take(it.index() as int));
        if c == sep {
            done.push(piece);
            piece = String::new();
        } else {
            piece.push(c);
        }
    }
    assert(s@.take(s@.len() as int) == s@);
    done.push(piece);
    done
}

/// Splits a text into its lines.
pub fn split_lines(text: &str) -> (lines: Vec<String>)
    ensures
        lines.deep_view() == lines_of(text@),
{
    let mut done: Vec<String> = Vec::new();
    let mut line: String = String::new();
    // A carriage return that was read and not yet put into `line`: whether it
    // belongs to the line depends on the character after it.
    let mut held: bool = false;
    for c in it: text.chars()
        invariant
            it.seq() == text@,
            !held ==> strip_cr(line@) == line@,
            ({
                let pieces = split_on(text@.take(it.index() as int), '\n');
                &&& done.deep_view() == Seq::new(
                    (pieces.len() - 1) as nat,
                    |i: int| strip_cr(pieces[i]),
                )
                &&& pieces.last() == if held {
                    line@.push('\r')
                } else {
                    line@
                }
            }),
    {
        let ghost upto = text@.take(it.index() as int);
        let ghost pieces = split_on(upto, '\n');
        proof {
            lemma_split_count(upto, '\n');
        }
        assert(text@.take(it.index() as int + 1).drop_last() == upto);
        if c == '\n' {
            let ghost before = done.deep_view();
            assert(strip_cr(pieces.last()) == line@);
            done.push(line);
            line = String::new();
            held = false;
            assert(done.deep_view() == before.push(done@.last()@));
        } else {
            if held {
                line.push('\r');
            }
            if c == '\r' {
                held = true;
            } else {
                line.push(c);
                held = false;
            }
        }
    }
    assert(text@.take(text@.len() as int) == text@);
    proof {
        lemma_split_count(text@, '\n');
    }
    if held {
        line.push('\r');
    }
    if !line.as_str().is_empty() {
        done.push(line);
    }
    done
}

} // verus!
