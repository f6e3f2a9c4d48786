//! Names derived from a file stem.
//!
//! A stem is the name of a file without its extension, such as
//! `bgp-neighbor`. Hyphens part it into words. Its prefix, `bgp_neighbor`,
//! begins the names of functions; its identifier, `BgpNeighbor`, names a
//! type. A stem with an empty word has no identifier.

use vstd::prelude::*;
use vstd::string::StrSliceExecFns;
use crate::chars::{upper_initial, upper_initial_of};
use crate::naming_lemmas::{
    lemma_identifier_first, lemma_identifier_len, lemma_identifier_of_empty,
    lemma_identifier_push, lemma_valid_stem_shape,
};
use crate::split::{lemma_split_concat, lemma_split_first_empty, lemma_split_push, split};

verus! {

/// A stem that no identifier can be derived from: one of its words is empty.
#[derive(Debug, Clone, Copy, PartialEq, Eq, Structural)]
pub struct InvalidName {
    /// The number of the first empty word, counted from zero.
    pub word: usize,
}

/// The words of a stem: the pieces between its hyphens, in order.
pub open spec fn words(stem: Seq<char>) -> Seq<Seq<char>> {
    split(stem, '-')
}

/// A stem is valid when none of its words is empty.
pub open spec fn is_valid_stem(stem: Seq<char>) -> bool {
    forall|k: int| 0 <= k < words(stem).len() ==> (#[trigger] words(stem)[k]).len() > 0
}

/// Whether word `k` is the first empty word of `stem`.
pub open spec fn is_first_empty_word(stem: Seq<char>, k: int) -> bool {
    &&& 0 <= k < words(stem).len()
    &&& words(stem)[k].len() == 0
    &&& forall|j: int| 0 <= j < k ==> (#[trigger] words(stem)[j]).len() > 0
}

/// What the prefix holds at the place of `c`.
pub open spec fn prefix_char(c: char) -> char {
    if c == '-' {
        '_'
    } else {
        c
    }
}

/// The prefix of a stem: every hyphen becomes an underscore.
pub open spec fn prefix_of(stem: Seq<char>) -> Seq<char> {
    Seq::new(stem.len(), |i: int| prefix_char(stem[i]))
}

/// A word with its first character upper-cased. The empty word stays empty.
pub open spec fn capitalize(word: Seq<char>) -> Seq<char> {
    if word.len() == 0 {
        word
    } else {
        word.update(0, upper_initial_of(word[0]))
    }
}

/// The identifier of a stem: its words, each capitalized, one after another.
pub open spec fn identifier_of(stem: Seq<char>) -> Seq<char> {
    words(stem).map_values(|word: Seq<char>| capitalize(word)).flatten()
}

/// Checks that no word of the stem is empty, and says which one is where
/// one is.
pub fn validate_stem(stem: &str) -> (result: Result<(), InvalidName>)
    ensures
        result is Ok <==> is_valid_stem(stem@),
        result matches Err(e) ==> is_first_empty_word(stem@, e.word as int),
{
    let length = stem.unicode_len();
    let mut word: usize = 0;
    let mut at_word_start = true;
    proof {
        assert(stem@.take(0) =~= Seq::<char>::empty());
    }
    for c in it: stem.chars()
        invariant
            it.seq() == stem@,
            length == stem@.len(),
            word + 1 == words(stem@.take(it.index() as int)).len(),
            word <= it.index(),
            at_word_start == (words(stem@.take(it.index() as int)).last().len() == 0),
            forall|j: int|
                0 <= j < word ==> (#[trigger] words(stem@.take(it.index() as int))[j]).len() > 0,
    {
        let ghost seen = stem@.take(it.index() as int);
        proof {
            assert(stem@.take(it.index() + 1) =~= seen.push(c));
            lemma_split_push(seen, '-', c);
        }
        if c == '-' {
            if at_word_start {
                proof {
                    let rest = stem@.skip(it.index() as int);
                    assert(seen + rest =~= stem@);
                    lemma_split_concat(seen, rest, '-');
                    lemma_split_first_empty(rest, '-');
                    assert(words(seen).last() + words(rest).first() =~= Seq::<char>::empty());
                    assert(words(stem@)[word as int].len() == 0);
                }
                return Err(InvalidName { word });
            }
            word += 1;
            at_word_start = true;
        } else {
            at_word_start = false;
        }
    }
    proof {
        assert(stem@.take(stem@.len() as int) =~= stem@);
    }
    if at_word_start {
        Err(InvalidName { word })
    } else {
        Ok(())
    }
}

/// Replaces every hyphen of the stem by an underscore.
pub fn stem_to_prefix(stem: &str) -> (prefix: String)
    ensures
        prefix@ == prefix_of(stem@),
        prefix@.len() == stem@.len(),
        !prefix@.contains('-'),
{
    let mut prefix = String::new();
    for c in it: stem.chars()
        invariant
            it.seq() == stem@,
            prefix@ == prefix_of(stem@.take(it.index() as int)),
    {
        prefix.push(if c == '-' { '_' } else { c });
    }
    prefix
}

/// Joins the words of the stem, each with its first character upper-cased
/// and the others as they are.
pub fn stem_to_identifier(stem: &str) -> (identifier: String)
    requires
        is_valid_stem(stem@),
    ensures
        identifier@ == identifier_of(stem@),
        1 <= identifier@.len() <= stem@.len(),
{
    let mut identifier = String::new();
    let mut at_word_start = true;
    proof {
        assert(stem@.take(0) =~= Seq::<char>::empty());
        lemma_identifier_of_empty();
    }
    for c in it: stem.chars()
        invariant
            it.seq() == stem@,
            identifier@ == identifier_of(stem@.take(it.index() as int)),
            at_word_start == (words(stem@.take(it.index() as int)).last().len() == 0),
    {
        proof {
            let seen = stem@.take(it.index() as int);
            assert(stem@.take(it.index() + 1) =~= seen.push(c));
            lemma_split_push(seen, '-', c);
            lemma_identifier_push(seen, c);
        }
        if c == '-' {
            at_word_start = true;
        } else if at_word_start {
            identifier.push(upper_initial(c));
            at_word_start = false;
        } else {
            identifier.push(c);
        }
    }
    proof {
        assert(stem@.take(stem@.len() as int) =~= stem@);
        lemma_valid_stem_shape(stem@);
        lemma_identifier_first(stem@);
        lemma_identifier_len(stem@);
    }
    identifier
}

} // verus!
