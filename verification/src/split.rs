//! Splitting text at a separator character.

use vstd::prelude::*;

verus! {

/// The pieces of `text` between the occurrences of `sep`, in order. A text
/// with `n` separators has `n + 1` pieces, some of which may be empty.
pub open spec fn split(text: Seq<char>, sep: char) -> Seq<Seq<char>>
    decreases text.len(),
{
    if text.len() == 0 {
        seq![Seq::empty()]
    } else if text.last() == sep {
        split(text.drop_last(), sep).push(Seq::empty())
    } else {
        let before = split(text.drop_last(), sep);
        before.drop_last().push(before.last().push(text.last()))
    }
}

/// The pieces put together again, with `sep` between each two.
pub open spec fn join(pieces: Seq<Seq<char>>, sep: char) -> Seq<char>
    decreases pieces.len(),
{
    if pieces.len() == 0 {
        Seq::empty()
    } else if pieces.len() == 1 {
        pieces[0]
    } else {
        join(pieces.drop_last(), sep).push(sep) + pieces.last()
    }
}

/// How the pieces change when one character is added at the end: a
/// separator opens a new, empty piece; any other character joins the last
/// piece.
pub proof fn lemma_split_push(text: Seq<char>, sep: char, c: char)
    ensures
        split(text, sep).len() >= 1,
        c == sep ==> split(text.push(c), sep) == split(text, sep).push(Seq::empty()),
        c != sep ==> split(text.push(c), sep) == split(text, sep).drop_last().push(
            split(text, sep).last().push(c),
        ),
    decreases text.len(),
{
    if text.len() > 0 {
        lemma_split_push(text.drop_last(), sep, text.last());
    }
    assert(text.push(c).drop_last() =~= text);
}

/// The last piece is empty exactly where the text is empty or ends in a
/// separator.
pub proof fn lemma_split_last_empty(text: Seq<char>, sep: char)
    ensures
        split(text, sep).len() >= 1,
        split(text, sep).last().len() == 0 <==> (text.len() == 0 || text.last() == sep),
{
    if text.len() > 0 {
        lemma_split_push(text.drop_last(), sep, text.last());
        assert(text.drop_last().push(text.last()) =~= text);
    }
}

/// A text without a separator is its own single piece, and no other text
/// has just one piece.
pub proof fn lemma_split_single(text: Seq<char>, sep: char)
    ensures
        split(text, sep).len() >= 1,
        split(text, sep).len() == 1 <==> !text.contains(sep),
        split(text, sep).len() == 1 ==> split(text, sep) == seq![text],
    decreases text.len(),
{
    if text.len() > 0 {
        let before = text.drop_last();
        let c = text.last();
        lemma_split_single(before, sep);
        lemma_split_push(before, sep, c);
        assert(before.push(c) =~= text);
        if c == sep {
            assert(text[text.len() - 1] == sep);
        } else {
            if before.contains(sep) {
                let i = choose|i: int| 0 <= i < before.len() && before[i] == sep;
                assert(text[i] == sep);
            }
            if text.contains(sep) {
                let i = choose|i: int| 0 <= i < text.len() && text[i] == sep;
                assert(before[i] == sep);
            }
            if split(text, sep).len() == 1 {
                assert(split(text, sep) =~= seq![text]);
            }
        }
    } else {
        assert(text =~= Seq::<char>::empty());
    }
}

/// The first piece is empty exactly where the text is empty or begins with
/// a separator.
pub proof fn lemma_split_first_empty(text: Seq<char>, sep: char)
    ensures
        split(text, sep).len() >= 1,
        split(text, sep).first().len() == 0 <==> (text.len() == 0 || text.first() == sep),
    decreases text.len(),
{
    if text.len() > 0 {
        let before = text.drop_last();
        let c = text.last();
        lemma_split_first_empty(before, sep);
        lemma_split_single(before, sep);
        lemma_split_push(before, sep, c);
        assert(before.push(c) =~= text);
        if before.len() > 0 {
            assert(text.first() == before.first());
            if split(before, sep).len() == 1 && before.first() == sep {
                assert(before[0] == sep);
            }
        }
    }
}

/// The pieces of two texts put together: the last piece of the first and
/// the first piece of the second become one piece, the others stay.
pub proof fn lemma_split_concat(a: Seq<char>, b: Seq<char>, sep: char)
    ensures
        split(a, sep).len() >= 1,
        split(b, sep).len() >= 1,
        split(a + b, sep) == split(a, sep).drop_last().push(
            split(a, sep).last() + split(b, sep).first(),
        ) + split(b, sep).drop_first(),
    decreases b.len(),
{
    lemma_split_push(a, sep, sep);
    lemma_split_push(b, sep, sep);
    let kept = split(a, sep).drop_last();
    let last = split(a, sep).last();
    if b.len() == 0 {
        assert(a + b =~= a);
        assert(last + split(b, sep).first() =~= last);
        assert(kept.push(last) + split(b, sep).drop_first() =~= split(a, sep));
    } else {
        let before = b.drop_last();
        let c = b.last();
        lemma_split_concat(a, before, sep);
        assert(before.push(c) =~= b);
        assert((a + before).push(c) =~= a + b);
        lemma_split_push(a + before, sep, c);
        lemma_split_push(before, sep, c);
        let first = split(before, sep).first();
        let rest = split(before, sep).drop_first();
        assert(split(a + before, sep) == kept.push(last + first) + rest);
        if c == sep {
            assert(split(b, sep).first() == first);
            assert(split(b, sep).drop_first() =~= rest.push(Seq::empty()));
            assert(split(a + b, sep) =~= kept.push(last + first) + rest.push(Seq::empty()));
        } else if split(before, sep).len() == 1 {
            assert(rest =~= Seq::<Seq<char>>::empty());
            assert(split(b, sep) =~= seq![first.push(c)]);
            assert((last + first).push(c) =~= last + first.push(c));
            assert(split(a + b, sep) =~= kept.push(last + first.push(c)) + split(
                b,
                sep,
            ).drop_first());
        } else {
            assert(split(b, sep).first() == first);
            assert(split(b, sep).drop_first() =~= rest.drop_last().push(rest.last().push(c)));
            assert(split(a + b, sep) =~= kept.push(last + first) + rest.drop_last().push(
                rest.last().push(c),
            ));
        }
    }
}

/// Splitting loses nothing and leaves no separator behind: the pieces hold
/// no separator, and joined again they give the text. Only one sequence of
/// pieces has both properties.
pub proof fn lemma_split_join(text: Seq<char>, sep: char)
    ensures
        forall|k: int|
            0 <= k < split(text, sep).len() ==> !(#[trigger] split(text, sep)[k]).contains(sep),
        join(split(text, sep), sep) == text,
    decreases text.len(),
{
    if text.len() == 0 {
        assert(join(split(text, sep), sep) =~= text);
    } else {
        let before = text.drop_last();
        let c = text.last();
        lemma_split_join(before, sep);
        lemma_split_push(before, sep, c);
        assert(before.push(c) =~= text);
        let old_pieces = split(before, sep);
        let pieces = split(text, sep);
        if c == sep {
            assert(pieces.drop_last() =~= old_pieces);
            assert(join(pieces, sep) =~= text);
        } else {
            let kept = old_pieces.drop_last();
            assert(old_pieces =~= kept.push(old_pieces.last()));
            assert(pieces.drop_last() =~= kept);
            assert forall|k: int| 0 <= k < pieces.len() implies !(#[trigger] pieces[k]).contains(
                sep,
            ) by {
                if k == pieces.len() - 1 {
                    let piece = old_pieces.last();
                    assert(!piece.contains(sep));
                    if piece.push(c).contains(sep) {
                        let i = choose|i: int| 0 <= i < piece.push(c).len() && piece.push(c)[i] == sep;
                        assert(piece[i] == sep);
                    }
                } else {
                    assert(pieces[k] == old_pieces[k]);
                }
            }
            if old_pieces.len() == 1 {
                assert(join(pieces, sep) =~= text);
            } else {
                assert(old_pieces.drop_last() =~= kept);
                assert(join(pieces, sep) =~= join(kept, sep).push(sep) + old_pieces.last().push(c));
                assert(join(old_pieces, sep) =~= join(kept, sep).push(sep) + old_pieces.last());
                assert(join(pieces, sep) =~= text);
            }
        }
    }
}

} // verus!
