//! The items of other crates that the library rests on, with what is taken
//! on trust about each of them. Nothing in this file is proved.

use vstd::prelude::*;

use cmudict_fast::{Cmudict, Rule, Symbol};
use regex::Regex;
use std::str::FromStr;

verus! {

/// The pronouncing dictionary of `cmudict_fast`, opaque here.
#[verifier::external_type_specification]
#[verifier::external_body]
pub struct ExCmudict(Cmudict);

/// One pronunciation of one word in `cmudict_fast`, opaque here.
#[verifier::external_type_specification]
#[verifier::external_body]
pub struct ExRule(Rule);

/// One phoneme of `cmudict_fast`, opaque here.
#[verifier::external_type_specification]
#[verifier::external_body]
pub struct ExSymbol(Symbol);

/// The error of std's input and output, opaque here.
#[verifier::external_type_specification]
#[verifier::external_body]
pub struct ExIoError(std::io::Error);

/// A compiled pattern of `regex`, opaque here.
#[verifier::external_type_specification]
#[verifier::external_body]
pub struct ExRegex(Regex);

/// The pronunciations that a dictionary lists under a word, if it lists the
/// word at all: what `Cmudict::get` returns.
pub uninterp spec fn dictionary_entry(dict: Cmudict, word: Seq<char>) -> Option<Seq<Rule>>;

/// The phonemes of a pronunciation, in order: what `Rule::pronunciation`
/// returns.
pub uninterp spec fn rule_phonemes(rule: Rule) -> Seq<Symbol>;

/// Whether a phoneme is the nucleus of a syllable: what `Symbol::is_syllable`
/// returns.
pub uninterp spec fn phoneme_is_syllabic(symbol: Symbol) -> bool;

/// Whether some pronunciation of one word rhymes with some pronunciation of
/// another: what `cmudict_fast::rhymes` returns.
pub uninterp spec fn rules_rhyme(ones: Seq<Rule>, twos: Seq<Rule>) -> bool;

/// Whether a compiled pattern matches anywhere in a text: what
/// `Regex::is_match` returns.
pub uninterp spec fn regex_accepts(re: Regex, text: Seq<char>) -> bool;

/// Whether a pattern matches anywhere in a text: what `Regex::is_match`
/// returns for the pattern as `Regex::new` compiles it, with the default
/// options.
pub uninterp spec fn pattern_matches(pattern: Seq<char>, text: Seq<char>) -> bool;

/// The lowercase form of a text: what `str::to_lowercase` returns.
pub uninterp spec fn lowercase(text: Seq<char>) -> Seq<char>;

/// The message with which reading a dictionary from a text fails, if it
/// fails: the error that `Cmudict::from_str` returns, as its `Display`
/// writes it.
pub uninterp spec fn read_error(text: Seq<char>) -> Option<Seq<char>>;

/// The pronunciations that the dictionary read from a text lists under a
/// word, if it lists the word: what `Cmudict::from_str` puts under it.
pub uninterp spec fn listed(text: Seq<char>, word: Seq<char>) -> Option<Seq<Rule>>;

/// `Cmudict::from_str` reads a dictionary from text in the CMU format. It is
/// trusted to depend on the text alone: whether it fails, with what
/// message, and what the dictionary lists under each word.
#[verifier::external_body]
pub(crate) fn read_dictionary(text: &str) -> (r: Result<Cmudict, String>)
    ensures
        match r {
            Ok(dict) => {
                &&& read_error(text@) is None
                &&& forall|word: Seq<char>| #[trigger]
                    dictionary_entry(dict, word) == listed(text@, word)
            },
            Err(message) => read_error(text@) == Some(message@),
        },
{
    match Cmudict::from_str(text) {
        Ok(dict) => Ok(dict),
        Err(e) => Err(e.to_string()),
    }
}

/// `Cmudict::get` looks a word up. It is trusted to return the word's
/// pronunciations, or nothing where the dictionary lacks the word, and to
/// return the same for the same dictionary and word.
pub assume_specification<'a>[ Cmudict::get ](dict: &'a Cmudict, s: &str) -> (r: Option<&'a [Rule]>)
    ensures
        match r {
            Some(rules) => dictionary_entry(*dict, s@) == Some(rules@),
            None => dictionary_entry(*dict, s@) is None,
        },
;

/// `Rule::pronunciation` is trusted to return the phonemes of the
/// pronunciation.
pub assume_specification<'a>[ Rule::pronunciation ](rule: &'a Rule) -> (r: &'a [Symbol])
    ensures
        r@ == rule_phonemes(*rule),
;

/// `Symbol::is_syllable` is trusted to depend on the phoneme alone.
pub assume_specification[ Symbol::is_syllable ](symbol: &Symbol) -> (b: bool)
    ensures
        b == phoneme_is_syllabic(*symbol),
;

/// `cmudict_fast::rhymes` is trusted to depend on the two lists of
/// pronunciations alone.
pub assume_specification[ cmudict_fast::rhymes ](ones: &[Rule], twos: &[Rule]) -> (b: bool)
    ensures
        b == rules_rhyme(ones@, twos@),
;

/// The message with which compiling a pattern fails, if it fails: the error
/// that `Regex::new` returns, as its `Display` writes it.
pub uninterp spec fn pattern_error(pattern: Seq<char>) -> Option<Seq<char>>;

/// `Regex::new` compiles a pattern with the default options. It is trusted
/// to depend on the pattern alone: whether it fails and with what message.
/// Where it succeeds, the compiled pattern is trusted to match exactly the
/// texts that the pattern matches.
#[verifier::external_body]
pub(crate) fn compile_pattern(pattern: &str) -> (r: Result<Regex, String>)
    ensures
        match r {
            Ok(compiled) => {
                &&& pattern_error(pattern@) is None
                &&& forall|text: Seq<char>|
                    regex_accepts(compiled, text) == pattern_matches(pattern@, text)
            },
            Err(message) => pattern_error(pattern@) == Some(message@),
        },
{
    match Regex::new(pattern) {
        Ok(compiled) => Ok(compiled),
        Err(e) => Err(e.to_string()),
    }
}

/// `Regex::is_match` is trusted to depend on the compiled pattern and the
/// text alone.
pub assume_specification[ Regex::is_match ](re: &Regex, haystack: &str) -> (b: bool)
    ensures
        b == regex_accepts(*re, haystack@),
;

/// `str::to_lowercase` is trusted to depend on the text alone.
pub assume_specification[ str::to_lowercase ](s: &str) -> (r: String)
    ensures
        r@ == lowercase(s@),
;

/// The message of an error of std's input and output, as its `Display`
/// writes it. Nothing is claimed of the message: for an error of the
/// operating system it depends on the machine.
#[verifier::external_body]
pub(crate) fn io_error_message(err: &std::io::Error) -> (message: String) {
    format!("{}", err)
}

/// `String::push` appends one character.
pub assume_specification[ String::push ](s: &mut String, ch: char)
    ensures
        final(s)@ == old(s)@.push(ch),
;

} // verus!
