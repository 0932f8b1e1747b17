//! Syllables, rhyme and alliteration.
//!
//! A word that the dictionary lists has the syllables of its longest
//! pronunciation. Any other word is counted by its spelling: every run of
//! vowel letters is a syllable or two.

use vstd::prelude::*;

use crate::lexicon::Lexicon;
use crate::outside::{lowercase, phoneme_is_syllabic, rule_phonemes, rules_rhyme};
use crate::text::{lemma_nonempty_holds, split, split_words, to_chars, to_text, views, words};
use cmudict_fast::{Rule, Symbol};

verus! {

/// Whether a character is one of the vowel letters, `y` among them.
pub open spec fn is_vowel(c: char) -> bool {
    c == 'a' || c == 'e' || c == 'i' || c == 'o' || c == 'u' || c == 'y'
}

/// Whether a character is one of the vowel letters.
pub fn vowel(c: char) -> (b: bool)
    ensures
        b == is_vowel(c),
{
    c == 'a' || c == 'e' || c == 'i' || c == 'o' || c == 'u' || c == 'y'
}

/// Whether two vowel letters in a row are spoken as one sound.
pub open spec fn is_diphthong(first: char, second: char) -> bool {
    ||| first == 'a' && (second == 'i' || second == 'u' || second == 'y')
    ||| first == 'e' && (second == 'a' || second == 'e' || second == 'i' || second == 'y')
    ||| first == 'o' && (second == 'a' || second == 'e' || second == 'i' || second == 'o'
        || second == 'u' || second == 'y')
    ||| first == 'u' && (second == 'a' || second == 'e' || second == 'i')
}

/// The syllables that a run of vowel letters counts for: one for a
/// diphthong, else one for each letter up to two.
pub open spec fn cluster_weight(cluster: Seq<char>) -> nat {
    if cluster.len() == 2 && is_diphthong(cluster[0], cluster[1]) {
        1
    } else if cluster.len() >= 2 {
        2
    } else {
        cluster.len()
    }
}

/// The syllables that a run of vowel letters counts for.
pub fn weigh_cluster(cluster: &Vec<char>) -> (n: usize)
    ensures
        n == cluster_weight(cluster@),
        n <= cluster.len(),
{
    if cluster.len() == 2 {
        let a = cluster[0];
        let b = cluster[1];
        let diphthong = (a == 'a' && (b == 'i' || b == 'u' || b == 'y')) || (a == 'e' && (b == 'a'
            || b == 'e' || b == 'i' || b == 'y')) || (a == 'o' && (b == 'a' || b == 'e' || b == 'i'
            || b == 'o' || b == 'u' || b == 'y')) || (a == 'u' && (b == 'a' || b == 'e' || b
            == 'i'));
        if diphthong {
            1
        } else {
            2
        }
    } else if cluster.len() >= 2 {
        2
    } else {
        cluster.len()
    }
}

/// The runs of vowel letters in a word: what lies between its other
/// characters, each of which ends a run. Two such characters in a row, or
/// one at either end, leave an empty run.
pub open spec fn vowel_clusters(word: Seq<char>) -> Seq<Seq<char>>
    decreases word.len(),
{
    if word.len() == 0 {
        seq![Seq::<char>::empty()]
    } else {
        let before = vowel_clusters(word.drop_last());
        if is_vowel(word.last()) {
            before.drop_last().push(before.last().push(word.last()))
        } else {
            before.push(Seq::<char>::empty())
        }
    }
}

/// The syllables that a list of runs counts for.
pub open spec fn total_weight(clusters: Seq<Seq<char>>) -> nat
    decreases clusters.len(),
{
    if clusters.len() == 0 {
        0
    } else {
        total_weight(clusters.drop_last()) + cluster_weight(clusters.last())
    }
}

/// The syllables of a word by its spelling.
pub open spec fn approximate(word: Seq<char>) -> nat {
    total_weight(vowel_clusters(word))
}

/// Counts the syllables of a word by its spelling. The word is taken as it
/// is written: only lower-case vowel letters count.
pub fn approximate_syllables(word: &str) -> (n: usize)
    ensures
        n == approximate(word@),
{
    let chars = to_chars(word);
    let mut closed: usize = 0;
    let mut run: Vec<char> = Vec::new();
    let mut i: usize = 0;
    assert(vowel_clusters(chars@.take(0)) == seq![Seq::<char>::empty()]);
    assert(seq![Seq::<char>::empty()].drop_last() == Seq::<Seq<char>>::empty());
    while i < chars.len()
        invariant
            i <= chars.len(),
            vowel_clusters(chars@.take(i as int)).len() > 0,
            closed == total_weight(vowel_clusters(chars@.take(i as int)).drop_last()),
            run@ == vowel_clusters(chars@.take(i as int)).last(),
            closed + run.len() <= i,
        decreases chars.len() - i,
    {
        let ghost before = vowel_clusters(chars@.take(i as int));
        assert(chars@.take(i + 1).drop_last() == chars@.take(i as int));
        let c = chars[i];
        if vowel(c) {
            run.push(c);
            assert(before.drop_last().push(run@).drop_last() == before.drop_last());
        } else {
            closed = closed + weigh_cluster(&run);
            run = Vec::new();
            assert(before.push(Seq::<char>::empty()).drop_last() == before);
            assert(before.drop_last().push(before.last()) == before);
        }
        i += 1;
    }
    assert(chars@.take(i as int) == chars@);
    let ghost all = vowel_clusters(chars@);
    assert(all.drop_last().push(all.last()) == all);
    closed + weigh_cluster(&run)
}

/// How many of the phonemes of a pronunciation carry a syllable.
pub open spec fn syllabic_count(phonemes: Seq<Symbol>) -> nat
    decreases phonemes.len(),
{
    if phonemes.len() == 0 {
        0
    } else {
        syllabic_count(phonemes.drop_last()) + if phoneme_is_syllabic(phonemes.last()) {
            1nat
        } else {
            0nat
        }
    }
}

/// The most syllables that any pronunciation in a list has; zero for an empty
/// list.
pub open spec fn most_syllables(rules: Seq<Rule>) -> nat
    decreases rules.len(),
{
    if rules.len() == 0 {
        0
    } else {
        let before = most_syllables(rules.drop_last());
        let here = syllabic_count(rule_phonemes(rules.last()));
        if here > before {
            here
        } else {
            before
        }
    }
}

/// Counts the phonemes of a pronunciation that carry a syllable.
pub fn count_syllabic(phonemes: &[Symbol]) -> (n: usize)
    ensures
        n == syllabic_count(phonemes@),
{
    let mut n: usize = 0;
    let mut i: usize = 0;
    while i < phonemes.len()
        invariant
            i <= phonemes.len(),
            n == syllabic_count(phonemes@.take(i as int)),
            n <= i,
        decreases phonemes.len() - i,
    {
        assert(phonemes@.take(i + 1).drop_last() == phonemes@.take(i as int));
        if phonemes[i].is_syllable() {
            n += 1;
        }
        i += 1;
    }
    assert(phonemes@.take(i as int) == phonemes@);
    n
}

/// Finds the most syllables that any pronunciation in a list has.
pub fn longest_pronunciation(rules: &[Rule]) -> (n: usize)
    ensures
        n == most_syllables(rules@),
{
    let mut n: usize = 0;
    let mut i: usize = 0;
    while i < rules.len()
        invariant
            i <= rules.len(),
            n == most_syllables(rules@.take(i as int)),
        decreases rules.len() - i,
    {
        assert(rules@.take(i + 1).drop_last() == rules@.take(i as int));
        let here = count_syllabic(rules[i].pronunciation());
        if here > n {
            n = here;
        }
        i += 1;
    }
    assert(rules@.take(i as int) == rules@);
    n
}

/// The syllables of one word. The word is put in lower case; if the
/// dictionary then lists it with at least one pronunciation, the longest
/// pronunciation counts, else the spelling.
pub open spec fn word_syllables(lexicon: &Lexicon, word: Seq<char>) -> nat {
    let lower = lowercase(word);
    match lexicon.entry(lower) {
        Some(rules) => if rules.len() > 0 {
            most_syllables(rules)
        } else {
            approximate(lower)
        },
        None => approximate(lower),
    }
}

/// Counts the syllables of one word.
pub fn count_word_syllables(lexicon: &Lexicon, word: &str) -> (n: usize)
    ensures
        n == word_syllables(lexicon, word@),
{
    let lower = word.to_lowercase();
    match lexicon.pronunciations(lower.as_str()) {
        Some(rules) => {
            if rules.len() > 0 {
                longest_pronunciation(rules)
            } else {
                approximate_syllables(lower.as_str())
            }
        },
        None => approximate_syllables(lower.as_str()),
    }
}

/// The syllables of a list of words together.
pub open spec fn sum_syllables(lexicon: &Lexicon, list: Seq<Seq<char>>) -> nat
    decreases list.len(),
{
    if list.len() == 0 {
        0
    } else {
        sum_syllables(lexicon, list.drop_last()) + word_syllables(lexicon, list.last())
    }
}

/// The syllables of a text: those of its words together.
pub open spec fn syllables(lexicon: &Lexicon, text: Seq<char>) -> nat {
    sum_syllables(lexicon, words(text))
}

/// A list of words counts the same when each word is put in lower case, if
/// putting a word in lower case a second time changes nothing.
pub proof fn lemma_sum_ignores_case(lexicon: &Lexicon, list: Seq<Seq<char>>)
    requires
        forall|i: int|
            0 <= i < list.len() ==> lowercase(lowercase(#[trigger] list[i])) == lowercase(list[i]),
    ensures
        sum_syllables(lexicon, list.map_values(|w: Seq<char>| lowercase(w))) == sum_syllables(
            lexicon,
            list,
        ),
    decreases list.len(),
{
    let lower = list.map_values(|w: Seq<char>| lowercase(w));
    if list.len() > 0 {
        lemma_sum_ignores_case(lexicon, list.drop_last());
        assert(lower.drop_last() == list.drop_last().map_values(|w: Seq<char>| lowercase(w)));
        assert(lower.last() == lowercase(list.last()));
    }
}

/// Counting syllables does not depend on case: a text counts the same in
/// lower case. This holds of every text whose words, put in lower case one
/// by one, are the words of the text in lower case, and stay as they are
/// when put in lower case again.
pub proof fn lemma_syllables_ignore_case(lexicon: &Lexicon, text: Seq<char>)
    requires
        words(lowercase(text)) == words(text).map_values(|w: Seq<char>| lowercase(w)),
        forall|i: int|
            0 <= i < words(text).len() ==> lowercase(lowercase(#[trigger] words(text)[i]))
                == lowercase(words(text)[i]),
    ensures
        syllables(lexicon, lowercase(text)) == syllables(lexicon, text),
        counted(lexicon, lowercase(text)) == counted(lexicon, text),
{
    lemma_sum_ignores_case(lexicon, words(text));
}

/// The syllables of a text as a machine number: the count itself, or the
/// largest `usize` where the count is beyond it.
pub open spec fn counted(lexicon: &Lexicon, text: Seq<char>) -> usize {
    if syllables(lexicon, text) <= usize::MAX {
        syllables(lexicon, text) as usize
    } else {
        usize::MAX
    }
}

/// Counts the syllables of a text. A count that no `usize` can hold comes
/// back as the largest `usize`.
pub fn count_syllables(lexicon: &Lexicon, input: &str) -> (n: usize)
    ensures
        n == counted(lexicon, input@),
{
    let chars = to_chars(input);
    let list = split_words(&chars);
    let mut n: usize = 0;
    let mut i: usize = 0;
    while i < list.len()
        invariant
            i <= list.len(),
            n == if sum_syllables(lexicon, views(list@).take(i as int)) <= usize::MAX {
                sum_syllables(lexicon, views(list@).take(i as int))
            } else {
                usize::MAX as nat
            },
        decreases list.len() - i,
    {
        assert(views(list@).take(i + 1).drop_last() == views(list@).take(i as int));
        let word = to_text(&list[i]);
        let here = count_word_syllables(lexicon, word.as_str());
        n = n.saturating_add(here);
        i += 1;
    }
    assert(views(list@).take(i as int) == views(list@));
    n
}

/// Whether the word at a place in a list begins as the next one does.
pub open spec fn starts_alike(list: Seq<Seq<char>>, i: int) -> bool {
    list[i][0] == list[i + 1][0]
}

/// Whether two words next to each other in a list begin with the same
/// character.
pub open spec fn alliterates(list: Seq<Seq<char>>) -> bool {
    exists|i: int| 0 <= i < list.len() - 1 && #[trigger] starts_alike(list, i)
}

/// Tests a line for alliteration: whether, once the line is in lower case,
/// two of its words next to each other begin with the same character.
pub fn has_alliteration(input: &str) -> (b: bool)
    ensures
        b == alliterates(words(lowercase(input@))),
{
    let lower = input.to_lowercase();
    let chars = to_chars(lower.as_str());
    let list = split_words(&chars);
    proof {
        lemma_nonempty_holds(split(chars@, ' '));
    }
    if list.len() < 2 {
        return false;
    }
    let mut i: usize = 0;
    while i < list.len() - 1
        invariant
            list.len() >= 2,
            views(list@) == words(lowercase(input@)),
            forall|j: int| 0 <= j < list.len() ==> (#[trigger] views(list@)[j]).len() > 0,
            forall|j: int| 0 <= j < i && j < list.len() - 1 ==> !starts_alike(views(list@), j),
        decreases list.len() - i,
    {
        assert(views(list@)[i as int].len() > 0);
        assert(views(list@)[i + 1].len() > 0);
        if list[i][0] == list[i + 1][0] {
            assert(starts_alike(views(list@), i as int));
            return true;
        }
        i += 1;
    }
    false
}

/// Whether two words rhyme. Both are put in lower case and looked up; a word
/// that the dictionary lacks rhymes with nothing.
pub open spec fn rhymes(lexicon: &Lexicon, one: Seq<char>, two: Seq<char>) -> bool {
    match (lexicon.entry(lowercase(one)), lexicon.entry(lowercase(two))) {
        (Some(ones), Some(twos)) => rules_rhyme(ones, twos),
        _ => false,
    }
}

/// Whether a line rhymes with the line before it: whether the last words of
/// the two rhyme. Without a line before, or where either line has no word,
/// there is no rhyme.
pub open spec fn end_rhyme(lexicon: &Lexicon, before: Option<Seq<char>>, line: Seq<char>) -> bool {
    match before {
        Some(before) => {
            &&& words(before).len() > 0
            &&& words(line).len() > 0
            &&& rhymes(lexicon, words(before).last(), words(line).last())
        },
        None => false,
    }
}

/// Tests whether a line rhymes with the line before it.
pub fn check_end_rhyme(lexicon: &Lexicon, last_line: Option<&str>, cur_line: &str) -> (b: bool)
    ensures
        b == end_rhyme(
            lexicon,
            match last_line {
                Some(l) => Some(l@),
                None => None,
            },
            cur_line@,
        ),
{
    match last_line {
        Some(last_line) => {
            let before = split_words(&to_chars(last_line));
            let here = split_words(&to_chars(cur_line));
            if before.len() == 0 || here.len() == 0 {
                return false;
            }
            let one = to_text(&before[before.len() - 1]).to_lowercase();
            let two = to_text(&here[here.len() - 1]).to_lowercase();
            match (lexicon.pronunciations(one.as_str()), lexicon.pronunciations(two.as_str())) {
                (Some(ones), Some(twos)) => cmudict_fast::rhymes(ones, twos),
                _ => false,
            }
        },
        None => false,
    }
}

} // verus!
