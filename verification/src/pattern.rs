//! Patterns that select tag keys. Patterns are regular expressions of the `regex` crate.
use crate::model::{lemma_filter_push, views};
use vstd::prelude::*;

verus! {

/// A compiled regular expression of the `regex` crate.
#[verifier::external_type_specification]
#[verifier::external_body]
pub struct ExRegex(regex::Regex);

/// Why the `regex` crate did not compile a pattern.
#[verifier::external_type_specification]
#[verifier::external_body]
pub struct ExRegexError(regex::Error);

/// Whether `regex::Regex::new` compiles a pattern. It also refuses a pattern whose compiled form
/// is too large, and that size depends on how wide a machine word is.
pub uninterp spec fn pattern_compiles(pattern: Seq<char>, word_bits: u32) -> bool;

/// The texts in which the regular expression that a pattern denotes has a match.
pub uninterp spec fn pattern_texts(pattern: Seq<char>) -> Set<Seq<char>>;

/// What a compiled regular expression stands for: the texts in which it has a match.
pub uninterp spec fn regex_texts(regex: regex::Regex) -> Set<Seq<char>>;

/// `regex::Regex::new` compiles a pattern. Claimed are that whether it does is a function of the
/// pattern and of the width of a machine word, and that the compiled pattern has a match in the
/// texts that the pattern denotes, and in no others.
pub assume_specification[ regex::Regex::new ](re: &str) -> (compiled: Result<
    regex::Regex,
    regex::Error,
>)
    ensures
        compiled is Ok <==> pattern_compiles(re@, usize::BITS),
        compiled matches Ok(regex) ==> regex_texts(regex) == pattern_texts(re@),
;

/// `regex::Regex::is_match` searches a text for a match. Claimed is that it finds one exactly in
/// the texts that the regular expression stands for.
pub assume_specification[ regex::Regex::is_match ](re: &regex::Regex, haystack: &str) -> (found: bool)
    ensures
        found == regex_texts(*re).contains(haystack@),
;

/// Some pattern that compiles matches the text.
pub open spec fn patterns_match(patterns: Seq<Seq<char>>, text: Seq<char>) -> bool {
    exists|i: int|
        0 <= i < patterns.len() && #[trigger] pattern_compiles(patterns[i], usize::BITS)
            && pattern_texts(patterns[i]).contains(text)
}

/// Some compiled pattern matches the text.
pub open spec fn any_matches(patterns: Seq<regex::Regex>, text: Seq<char>) -> bool {
    exists|i: int| 0 <= i < patterns.len() && regex_texts(#[trigger] patterns[i]).contains(text)
}

/// The patterns that compile.
pub open spec fn compiling(patterns: Seq<Seq<char>>) -> Seq<Seq<char>> {
    patterns.filter(|pattern: Seq<char>| pattern_compiles(pattern, usize::BITS))
}

/// Compiles patterns, in order. One that does not compile is left out.
pub fn compile_patterns(patterns: &Vec<String>) -> (compiled: Vec<regex::Regex>)
    ensures
        compiled@.len() == compiling(views(patterns@)).len(),
        forall|i: int|
            0 <= i < compiled@.len() ==> regex_texts(#[trigger] compiled@[i]) == pattern_texts(
                compiling(views(patterns@))[i],
            ),
        forall|text: Seq<char>| #[trigger]
            any_matches(compiled@, text) == patterns_match(views(patterns@), text),
{
    let mut compiled: Vec<regex::Regex> = Vec::new();
    for i in 0..patterns.len()
        invariant
            compiled@.len() == compiling(views(patterns@).take(i as int)).len(),
            forall|j: int|
                0 <= j < compiled@.len() ==> regex_texts(#[trigger] compiled@[j]) == pattern_texts(
                    compiling(views(patterns@).take(i as int))[j],
                ),
            forall|text: Seq<char>| #[trigger]
                any_matches(compiled@, text) == patterns_match(views(patterns@).take(i as int), text),
    {
        let ghost before = compiled@;
        let ghost seen = views(patterns@).take(i as int);
        let result = regex::Regex::new(patterns[i].as_str());
        if let Ok(regex) = result {
            compiled.push(regex);
        }
        proof {
            let pattern = patterns@[i as int]@;
            assert(views(patterns@).take(i + 1) =~= seen.push(pattern));
            lemma_filter_push(
                seen,
                pattern,
                |pattern: Seq<char>| pattern_compiles(pattern, usize::BITS),
            );
            assert forall|text: Seq<char>| #[trigger]
                any_matches(compiled@, text) == patterns_match(seen.push(pattern), text) by {
                assert(any_matches(before, text) == patterns_match(seen, text));
                if any_matches(compiled@, text) {
                    let j = choose|j: int|
                        0 <= j < compiled@.len() && regex_texts(#[trigger] compiled@[j]).contains(text);
                    if j < before.len() {
                        assert(regex_texts(before[j]).contains(text));
                        let k = choose|k: int|
                            0 <= k < seen.len() && #[trigger] pattern_compiles(seen[k], usize::BITS)
                                && pattern_texts(seen[k]).contains(text);
                        assert(seen.push(pattern)[k] == seen[k]);
                    } else {
                        assert(seen.push(pattern)[i as int] == pattern);
                        assert(pattern_compiles(seen.push(pattern)[i as int], usize::BITS));
                    }
                }
                if patterns_match(seen.push(pattern), text) {
                    let k = choose|k: int|
                        0 <= k < seen.len() + 1 && #[trigger] pattern_compiles(
                            seen.push(pattern)[k],
                            usize::BITS,
                        ) && pattern_texts(seen.push(pattern)[k]).contains(text);
                    if k < seen.len() {
                        assert(pattern_compiles(seen[k], usize::BITS));
                        let j = choose|j: int|
                            0 <= j < before.len() && regex_texts(#[trigger] before[j]).contains(text);
                        assert(compiled@[j] == before[j]);
                    } else {
                        assert(regex_texts(compiled@[before.len() as int]).contains(text));
                    }
                }
            }
        }
    }
    assert(views(patterns@).take(patterns@.len() as int) =~= views(patterns@));
    compiled
}

/// Whether some compiled pattern matches the text.
pub fn matches_any(patterns: &Vec<regex::Regex>, text: &str) -> (found: bool)
    ensures
        found == any_matches(patterns@, text@),
{
    for i in 0..patterns.len()
        invariant
            forall|j: int| 0 <= j < i ==> !regex_texts(#[trigger] patterns@[j]).contains(text@),
    {
        if patterns[i].is_match(text) {
            return true;
        }
    }
    false
}

}
