//! What holds of the names that a stem gives.

use vstd::prelude::*;
use crate::chars::{
    ascii_uppercase, is_ascii_alphanumeric, is_ascii_char, is_ascii_lowercase, is_ascii_uppercase,
    upper_initial_of,
};
use crate::naming::{capitalize, identifier_of, is_valid_stem, prefix_of, words};
use crate::split::{lemma_split_last_empty, lemma_split_push, lemma_split_single};

verus! {

/// Whether the first character of a word stands at place `i` of `stem`.
pub open spec fn starts_word(stem: Seq<char>, i: int) -> bool {
    &&& 0 <= i < stem.len()
    &&& stem[i] != '-'
    &&& (i == 0 || stem[i - 1] == '-')
}

/// Whether every word of `stem` begins with an ASCII character.
pub open spec fn has_ascii_initials(stem: Seq<char>) -> bool {
    forall|i: int| #[trigger] starts_word(stem, i) ==> is_ascii_char(stem[i])
}

/// Whether `stem` is valid and made of ASCII letters, digits and hyphens
/// alone.
pub open spec fn is_plain_stem(stem: Seq<char>) -> bool {
    &&& is_valid_stem(stem)
    &&& forall|i: int|
        0 <= i < stem.len() ==> is_ascii_alphanumeric(#[trigger] stem[i]) || stem[i] == '-'
}

/// Whether two hyphens stand side by side at places `i - 1` and `i`.
pub open spec fn doubled_hyphen_at(stem: Seq<char>, i: int) -> bool {
    0 < i < stem.len() && stem[i - 1] == '-' && stem[i] == '-'
}

/// The empty stem has the empty identifier.
pub proof fn lemma_identifier_of_empty()
    ensures
        identifier_of(Seq::empty()) == Seq::<char>::empty(),
{
    let capitalized = words(Seq::empty()).map_values(|word: Seq<char>| capitalize(word));
    assert(capitalized =~= seq![Seq::<char>::empty()]);
    capitalized.lemma_flatten_singleton();
}

/// How the identifier changes when one character is added at the end.
pub proof fn lemma_identifier_push(stem: Seq<char>, c: char)
    ensures
        c == '-' ==> identifier_of(stem.push(c)) == identifier_of(stem),
        c != '-' && words(stem).last().len() == 0 ==> identifier_of(stem.push(c))
            == identifier_of(stem).push(upper_initial_of(c)),
        c != '-' && words(stem).last().len() > 0 ==> identifier_of(stem.push(c))
            == identifier_of(stem).push(c),
{
    broadcast use Seq::lemma_flatten_push;

    lemma_split_push(stem, '-', c);
    let cap = |word: Seq<char>| capitalize(word);
    let before = words(stem);
    let kept = before.drop_last();
    let last = before.last();
    assert(before =~= kept.push(last));
    assert(before.map_values(cap) =~= kept.map_values(cap).push(capitalize(last)));
    if c == '-' {
        assert(before.push(Seq::empty()).map_values(cap) =~= before.map_values(cap).push(
            Seq::empty(),
        ));
        assert(before.map_values(cap).flatten() + Seq::<char>::empty()
            =~= before.map_values(cap).flatten());
    } else {
        assert(kept.push(last.push(c)).map_values(cap) =~= kept.map_values(cap).push(
            capitalize(last.push(c)),
        ));
        if last.len() == 0 {
            assert(capitalize(last.push(c)) =~= seq![upper_initial_of(c)]);
            assert(kept.map_values(cap).flatten() + capitalize(last) + seq![upper_initial_of(c)]
                =~= (kept.map_values(cap).flatten() + capitalize(last)).push(upper_initial_of(c)));
            assert(kept.map_values(cap).flatten() + capitalize(last)
                =~= kept.map_values(cap).flatten());
        } else {
            assert(capitalize(last.push(c)) =~= capitalize(last).push(c));
            assert(kept.map_values(cap).flatten() + capitalize(last).push(c) =~= (kept.map_values(
                cap,
            ).flatten() + capitalize(last)).push(c));
        }
    }
}

/// The prefix is as long as the stem and holds no hyphen.
pub proof fn lemma_prefix_shape(stem: Seq<char>)
    ensures
        prefix_of(stem).len() == stem.len(),
        !prefix_of(stem).contains('-'),
{
}

/// A stem without a hyphen is its own prefix.
pub proof fn lemma_prefix_of_hyphen_free(stem: Seq<char>)
    requires
        !stem.contains('-'),
    ensures
        prefix_of(stem) == stem,
{
    assert forall|i: int| 0 <= i < stem.len() implies prefix_of(stem)[i] == stem[i] by {
        if stem[i] == '-' {
            assert(stem.contains('-'));
        }
    }
    assert(prefix_of(stem) =~= stem);
}

/// Taking the prefix a second time changes nothing.
pub proof fn lemma_prefix_idempotent(stem: Seq<char>)
    ensures
        prefix_of(prefix_of(stem)) == prefix_of(stem),
{
    assert(prefix_of(prefix_of(stem)) =~= prefix_of(stem));
}

/// The identifier is the stem without its hyphens: it is shorter than the
/// stem by one character for each word after the first.
pub proof fn lemma_identifier_len(stem: Seq<char>)
    ensures
        words(stem).len() >= 1,
        identifier_of(stem).len() == stem.len() - (words(stem).len() - 1),
    decreases stem.len(),
{
    if stem.len() == 0 {
        lemma_identifier_of_empty();
        assert(stem =~= Seq::<char>::empty());
    } else {
        let before = stem.drop_last();
        lemma_identifier_len(before);
        lemma_split_push(before, '-', stem.last());
        lemma_identifier_push(before, stem.last());
        assert(before.push(stem.last()) =~= stem);
    }
}

/// The identifier of a stem that does not begin with a hyphen begins with
/// the upper-cased first character of the stem.
pub proof fn lemma_identifier_first(stem: Seq<char>)
    requires
        stem.len() > 0,
        stem[0] != '-',
    ensures
        identifier_of(stem).len() > 0,
        identifier_of(stem)[0] == upper_initial_of(stem[0]),
    decreases stem.len(),
{
    let before = stem.drop_last();
    lemma_identifier_push(before, stem.last());
    lemma_split_last_empty(before, '-');
    assert(before.push(stem.last()) =~= stem);
    if before.len() == 0 {
        lemma_identifier_of_empty();
        assert(before =~= Seq::<char>::empty());
    } else {
        lemma_identifier_first(before);
    }
}

/// Where every word begins with an ASCII character, the identifier holds no
/// hyphen.
pub proof fn lemma_identifier_hyphen_free(stem: Seq<char>)
    requires
        has_ascii_initials(stem),
    ensures
        !identifier_of(stem).contains('-'),
    decreases stem.len(),
{
    if stem.len() == 0 {
        lemma_identifier_of_empty();
        assert(stem =~= Seq::<char>::empty());
    } else {
        let before = stem.drop_last();
        let c = stem.last();
        assert forall|i: int| #[trigger] starts_word(before, i) implies is_ascii_char(
            before[i],
        ) by {
            assert(starts_word(stem, i));
        }
        lemma_identifier_hyphen_free(before);
        lemma_identifier_push(before, c);
        lemma_split_last_empty(before, '-');
        assert(before.push(c) =~= stem);
        let grown = identifier_of(stem);
        if grown.contains('-') {
            let i = choose|i: int| 0 <= i < grown.len() && grown[i] == '-';
            if i < identifier_of(before).len() {
                assert(identifier_of(before)[i] == '-');
            } else {
                assert(starts_word(stem, stem.len() - 1));
            }
        }
    }
}

/// A stem is valid exactly where it is not empty, neither begins nor ends
/// with a hyphen, and has no two hyphens side by side.
pub proof fn lemma_valid_stem_shape(stem: Seq<char>)
    ensures
        is_valid_stem(stem) <==> {
            &&& stem.len() > 0
            &&& stem.first() != '-'
            &&& stem.last() != '-'
            &&& forall|i: int| !#[trigger] doubled_hyphen_at(stem, i)
        },
{
    lemma_complete_words_shape(stem);
    lemma_split_last_empty(stem, '-');
    let all = words(stem);
    if is_valid_stem(stem) {
        assert(all[all.len() - 1].len() > 0);
    }
}

/// The words before the last are all non-empty exactly where the stem does
/// not begin with a hyphen and has no two hyphens side by side.
proof fn lemma_complete_words_shape(stem: Seq<char>)
    ensures
        words(stem).len() >= 1,
        (forall|k: int| 0 <= k < words(stem).len() - 1 ==> (#[trigger] words(stem)[k]).len() > 0)
            <==> {
            &&& stem.len() > 0 ==> stem.first() != '-'
            &&& forall|i: int| !#[trigger] doubled_hyphen_at(stem, i)
        },
    decreases stem.len(),
{
    if stem.len() > 0 {
        let before = stem.drop_last();
        let c = stem.last();
        lemma_complete_words_shape(before);
        lemma_split_push(before, '-', c);
        lemma_split_last_empty(before, '-');
        assert(before.push(c) =~= stem);
        let old_words = words(before);
        let all = words(stem);
        let old_complete = forall|k: int|
            0 <= k < old_words.len() - 1 ==> (#[trigger] old_words[k]).len() > 0;
        let complete = forall|k: int| 0 <= k < all.len() - 1 ==> (#[trigger] all[k]).len() > 0;
        let old_undoubled = forall|i: int| !#[trigger] doubled_hyphen_at(before, i);
        let undoubled = forall|i: int| !#[trigger] doubled_hyphen_at(stem, i);
        // The places before the last hold in the longer stem what they held
        // in the shorter one.
        assert(undoubled ==> old_undoubled) by {
            if undoubled {
                assert forall|i: int| !#[trigger] doubled_hyphen_at(before, i) by {
                    assert(!doubled_hyphen_at(stem, i));
                }
            }
        }
        assert(old_undoubled && !doubled_hyphen_at(stem, stem.len() - 1) ==> undoubled) by {
            if old_undoubled && !doubled_hyphen_at(stem, stem.len() - 1) {
                assert forall|i: int| !#[trigger] doubled_hyphen_at(stem, i) by {
                    assert(!doubled_hyphen_at(before, i));
                }
            }
        }
        if c == '-' {
            assert(complete ==> old_complete && old_words.last().len() > 0) by {
                if complete {
                    assert(all[old_words.len() - 1].len() > 0);
                    assert forall|k: int| 0 <= k < old_words.len() - 1 implies (
                    #[trigger] old_words[k]).len() > 0 by {
                        assert(all[k].len() > 0);
                    }
                }
            }
            assert(old_complete && old_words.last().len() > 0 ==> complete) by {
                if old_complete && old_words.last().len() > 0 {
                    assert forall|k: int| 0 <= k < all.len() - 1 implies (#[trigger] all[k]).len()
                        > 0 by {
                        assert(all[k] == old_words[k]);
                    }
                }
            }
            if before.len() > 0 {
                assert(stem.first() == before.first());
                assert(doubled_hyphen_at(stem, stem.len() - 1) <==> before.last() == '-');
            } else {
                assert(stem.first() == '-');
            }
        } else {
            assert(complete ==> old_complete) by {
                if complete {
                    assert forall|k: int| 0 <= k < old_words.len() - 1 implies (
                    #[trigger] old_words[k]).len() > 0 by {
                        assert(all[k].len() > 0);
                    }
                }
            }
            assert(old_complete ==> complete) by {
                if old_complete {
                    assert forall|k: int| 0 <= k < all.len() - 1 implies (#[trigger] all[k]).len()
                        > 0 by {
                        assert(all[k] == old_words[k]);
                    }
                }
            }
            assert(!doubled_hyphen_at(stem, stem.len() - 1));
            if before.len() > 0 {
                assert(stem.first() == before.first());
            }
        }
    } else {
        assert(stem =~= Seq::<char>::empty());
    }
}

/// The identifier of a stem of ASCII letters, digits and hyphens holds no
/// hyphen, is no longer than the stem, and begins with the ASCII uppercase
/// of the stem's first character: an uppercase letter where the stem begins
/// with a letter, the same digit where it begins with a digit.
pub proof fn lemma_identifier_of_plain_stem(stem: Seq<char>)
    requires
        is_plain_stem(stem),
    ensures
        !identifier_of(stem).contains('-'),
        1 <= identifier_of(stem).len() <= stem.len(),
        identifier_of(stem)[0] == ascii_uppercase(stem[0]),
        !is_ascii_lowercase(identifier_of(stem)[0]),
        is_ascii_lowercase(stem[0]) || is_ascii_uppercase(stem[0]) ==> is_ascii_uppercase(
            identifier_of(stem)[0],
        ),
{
    lemma_valid_stem_shape(stem);
    lemma_identifier_first(stem);
    lemma_identifier_len(stem);
    assert(has_ascii_initials(stem));
    lemma_identifier_hyphen_free(stem);
    assert(is_ascii_alphanumeric(stem[0]));
}

/// Where every word of a valid stem begins with an ASCII character, the
/// identifier is a valid stem too, and it is its own identifier.
pub proof fn lemma_identifier_idempotent(stem: Seq<char>)
    requires
        is_valid_stem(stem),
        has_ascii_initials(stem),
    ensures
        is_valid_stem(identifier_of(stem)),
        identifier_of(identifier_of(stem)) == identifier_of(stem),
{
    let identifier = identifier_of(stem);
    lemma_valid_stem_shape(stem);
    lemma_identifier_first(stem);
    lemma_identifier_hyphen_free(stem);
    lemma_split_single(identifier, '-');
    assert(starts_word(stem, 0));
    assert(capitalize(identifier) =~= identifier);
    let capitalized = words(identifier).map_values(|word: Seq<char>| capitalize(word));
    assert(capitalized =~= seq![identifier]);
    capitalized.lemma_flatten_singleton();
}

} // verus!
