//! The lines of a text.

use vstd::prelude::*;
use crate::split::{lemma_split_push, split};

verus! {

/// A piece of text without the carriage return at its end, if it has one.
pub open spec fn without_carriage_return(piece: Seq<char>) -> Seq<char> {
    if piece.len() > 0 && piece.last() == '\r' {
        piece.drop_last()
    } else {
        piece
    }
}

/// The lines of a text. A line ends with a line feed, and a carriage return
/// just before the line feed belongs to the ending. What follows the last
/// line feed is a line too, unless it is empty. So the empty text has no
/// line.
pub open spec fn lines_of(text: Seq<char>) -> Seq<Seq<char>> {
    let pieces = split(text, '\n');
    if pieces.last().len() == 0 {
        ended_lines(pieces.drop_last())
    } else {
        ended_lines(pieces.drop_last()).push(pieces.last())
    }
}

/// The lines that the pieces before line feeds make.
pub open spec fn ended_lines(pieces: Seq<Seq<char>>) -> Seq<Seq<char>> {
    pieces.map_values(|piece: Seq<char>| without_carriage_return(piece))
}

/// What each string of a sequence holds.
pub open spec fn views(strings: Seq<String>) -> Seq<Seq<char>> {
    strings.map_values(|s: String| s@)
}

/// Splits a text into its lines.
pub fn split_lines(text: &str) -> (lines: Vec<String>)
    ensures
        views(lines@) == lines_of(text@),
{
    let mut lines: Vec<String> = Vec::new();
    let mut line = String::new();
    // A carriage return is held back until the next character shows whether
    // it belongs to a line ending.
    let mut held = false;
    proof {
        assert(text@.take(0) =~= Seq::<char>::empty());
        assert(views(lines@) =~= ended_lines(split(text@.take(0), '\n').drop_last()));
    }
    for c in it: text.chars()
        invariant
            it.seq() == text@,
            views(lines@) == ended_lines(split(text@.take(it.index() as int), '\n').drop_last()),
            split(text@.take(it.index() as int), '\n').last() == if held {
                line@.push('\r')
            } else {
                line@
            },
            !held ==> line@.len() == 0 || line@.last() != '\r',
    {
        let ghost pieces = split(text@.take(it.index() as int), '\n');
        proof {
            let seen = text@.take(it.index() as int);
            assert(text@.take(it.index() + 1) =~= seen.push(c));
            lemma_split_push(seen, '\n', c);
            assert(pieces =~= pieces.drop_last().push(pieces.last()));
        }
        if c == '\n' {
            let ghost before = lines@;
            lines.push(line);
            line = String::new();
            held = false;
            proof {
                assert(views(lines@) =~= views(before).push(lines@.last()@));
                assert(lines@.last()@ =~= without_carriage_return(pieces.last()));
                assert(ended_lines(pieces) =~= ended_lines(pieces.drop_last()).push(
                    without_carriage_return(pieces.last()),
                ));
                assert(pieces.push(Seq::empty()).drop_last() =~= pieces);
            }
        } else if c == '\r' {
            if held {
                line.push('\r');
            }
            held = true;
            assert(pieces.drop_last().push(pieces.last().push(c)).drop_last()
                =~= pieces.drop_last());
        } else {
            if held {
                line.push('\r');
                held = false;
            }
            line.push(c);
            assert(pieces.drop_last().push(pieces.last().push(c)).drop_last()
                =~= pieces.drop_last());
        }
    }
    proof {
        assert(text@.take(text@.len() as int) =~= text@);
    }
    if held {
        line.push('\r');
    }
    if !line.as_str().is_empty() {
        let ghost before = lines@;
        lines.push(line);
        proof {
            assert(views(lines@) =~= views(before).push(lines@.last()@));
        }
    }
    lines
}

} // verus!
