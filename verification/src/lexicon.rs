//! What the classifier knows of English: a pronouncing dictionary and the
//! three patterns by which it recognises capitals and similes.

use vstd::prelude::*;

use crate::error::Error;
use crate::outside::{
    compile_pattern, dictionary_entry, listed, pattern_error, pattern_matches, read_dictionary,
    read_error, regex_accepts,
};
use cmudict_fast::{Cmudict, Rule};
use regex::Regex;

verus! {

/// A word with a capital letter inside it.
pub const INTERNAL_CAPITAL: &'static str = "\\b\\S+[A-Z]\\S+\\b";

/// A word that begins with a capital letter and holds no other.
pub const CAPITALIZED: &'static str = "\\b[A-Z][^A-Z]+\\b";

/// One of the words of a simile.
pub const SIMILE: &'static str = "\\b(like|as)\\b";

/// The dictionary and the compiled patterns, made once and shared by every
/// analysis that follows.
pub struct Lexicon {
    words: Cmudict,
    internal_capital: Regex,
    capitalized: Regex,
    simile: Regex,
}

impl Lexicon {
    #[verifier::type_invariant]
    spec fn well_formed(self) -> bool {
        &&& forall|text: Seq<char>| #[trigger]
            regex_accepts(self.internal_capital, text) == pattern_matches(INTERNAL_CAPITAL@, text)
        &&& forall|text: Seq<char>| #[trigger]
            regex_accepts(self.capitalized, text) == pattern_matches(CAPITALIZED@, text)
        &&& forall|text: Seq<char>| #[trigger]
            regex_accepts(self.simile, text) == pattern_matches(SIMILE@, text)
    }

    /// The pronunciations that the dictionary lists under a word, if it
    /// lists the word.
    pub closed spec fn entry(&self, word: Seq<char>) -> Option<Seq<Rule>> {
        dictionary_entry(self.words, word)
    }

    /// Looks a word up in the dictionary, as it is written: the dictionary
    /// lists its words in lower case.
    pub fn pronunciations<'a>(&'a self, word: &str) -> (r: Option<&'a [Rule]>)
        ensures
            match r {
                Some(rules) => self.entry(word@) == Some(rules@),
                None => self.entry(word@) is None,
            },
    {
        self.words.get(word)
    }

    /// Whether some word of a text has a capital letter inside it.
    pub fn has_internal_capital(&self, text: &str) -> (b: bool)
        ensures
            b == pattern_matches(INTERNAL_CAPITAL@, text@),
    {
        proof {
            use_type_invariant(self);
        }
        self.internal_capital.is_match(text)
    }

    /// Whether some word of a text begins with a capital letter.
    pub fn has_capitalized_word(&self, text: &str) -> (b: bool)
        ensures
            b == pattern_matches(CAPITALIZED@, text@),
    {
        proof {
            use_type_invariant(self);
        }
        self.capitalized.is_match(text)
    }

    /// Whether a text holds one of the words of a simile.
    pub fn has_simile(&self, text: &str) -> (b: bool)
        ensures
            b == pattern_matches(SIMILE@, text@),
    {
        proof {
            use_type_invariant(self);
        }
        self.simile.is_match(text)
    }

    /// Puts a lexicon together from a dictionary and the three patterns, each
    /// of them as it came out of its reader or compiler. The first part that
    /// failed decides the error: a dictionary that could not be read is a
    /// parse error, a pattern that could not be compiled a program error.
    pub fn from_parts(
        words: Result<Cmudict, String>,
        internal_capital: Result<Regex, String>,
        capitalized: Result<Regex, String>,
        simile: Result<Regex, String>,
    ) -> (r: Result<Lexicon, Error>)
        requires
            internal_capital matches Ok(re) ==> forall|text: Seq<char>| #[trigger]
                regex_accepts(re, text) == pattern_matches(INTERNAL_CAPITAL@, text),
            capitalized matches Ok(re) ==> forall|text: Seq<char>| #[trigger]
                regex_accepts(re, text) == pattern_matches(CAPITALIZED@, text),
            simile matches Ok(re) ==> forall|text: Seq<char>| #[trigger]
                regex_accepts(re, text) == pattern_matches(SIMILE@, text),
        ensures
            match r {
                Ok(lexicon) => {
                    &&& words is Ok
                    &&& internal_capital is Ok
                    &&& capitalized is Ok
                    &&& simile is Ok
                    &&& forall|word: Seq<char>| #[trigger]
                        lexicon.entry(word) == dictionary_entry(words->Ok_0, word)
                },
                Err(Error::ParseError(message)) => words == Err::<Cmudict, String>(message),
                Err(Error::ProgramError(message)) => {
                    &&& words is Ok
                    &&& if internal_capital is Err {
                        internal_capital == Err::<Regex, String>(message)
                    } else if capitalized is Err {
                        capitalized == Err::<Regex, String>(message)
                    } else {
                        simile == Err::<Regex, String>(message)
                    }
                },
                Err(Error::InputError(_)) => false,
            },
    {
        let words = match words {
            Ok(words) => words,
            Err(message) => {
                return Err(Error::ParseError(message));
            },
        };
        let internal_capital = match internal_capital {
            Ok(re) => re,
            Err(message) => {
                return Err(Error::ProgramError(message));
            },
        };
        let capitalized = match capitalized {
            Ok(re) => re,
            Err(message) => {
                return Err(Error::ProgramError(message));
            },
        };
        let simile = match simile {
            Ok(re) => re,
            Err(message) => {
                return Err(Error::ProgramError(message));
            },
        };
        Ok(Lexicon { words, internal_capital, capitalized, simile })
    }

    /// Reads a dictionary in the CMU format, one entry to a line, and
    /// compiles the patterns. The lexicon is made exactly when the
    /// dictionary reads and the three patterns compile, and it then lists
    /// under every word what the dictionary text lists. A dictionary that
    /// does not read is a parse error with the reader's message; failing
    /// that, the first pattern that does not compile is a program error with
    /// the compiler's message.
    pub fn new(dictionary: &str) -> (r: Result<Lexicon, Error>)
        ensures
            match r {
                Ok(lexicon) => {
                    &&& read_error(dictionary@) is None
                    &&& pattern_error(INTERNAL_CAPITAL@) is None
                    &&& pattern_error(CAPITALIZED@) is None
                    &&& pattern_error(SIMILE@) is None
                    &&& forall|word: Seq<char>| #[trigger]
                        lexicon.entry(word) == listed(dictionary@, word)
                },
                Err(Error::ParseError(message)) => read_error(dictionary@) == Some(message@),
                Err(Error::ProgramError(message)) => {
                    &&& read_error(dictionary@) is None
                    &&& first_pattern_error() == Some(message@)
                },
                Err(Error::InputError(_)) => false,
            },
    {
        Lexicon::from_parts(
            read_dictionary(dictionary),
            compile_pattern(INTERNAL_CAPITAL),
            compile_pattern(CAPITALIZED),
            compile_pattern(SIMILE),
        )
    }
}

/// The message of the first of the three patterns that does not compile, if
/// one does not.
pub open spec fn first_pattern_error() -> Option<Seq<char>> {
    if pattern_error(INTERNAL_CAPITAL@) is Some {
        pattern_error(INTERNAL_CAPITAL@)
    } else if pattern_error(CAPITALIZED@) is Some {
        pattern_error(CAPITALIZED@)
    } else {
        pattern_error(SIMILE@)
    }
}

} // verus!
