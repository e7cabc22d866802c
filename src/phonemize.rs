use vstd::prelude::*;
use unicode_normalization::UnicodeNormalization;
use crate::error::ESpeakError;

verus! {

/// Intonation bits of a clause terminator.
pub const CLAUSE_INTONATION_MASK: i32 = 0x0000F000;

pub const CLAUSE_INTONATION_FULL_STOP: i32 = 0x00000000;

pub const CLAUSE_INTONATION_COMMA: i32 = 0x00001000;

pub const CLAUSE_INTONATION_QUESTION: i32 = 0x00002000;

pub const CLAUSE_INTONATION_EXCLAMATION: i32 = 0x00003000;

/// Terminator bit of a clause that ends a sentence.
pub const CLAUSE_TYPE_SENTENCE: i32 = 0x00080000;

/// Phonemizer output mode for IPA phonemes.
pub const PHONEME_IPA: i32 = 0x02;

/// Language-switch annotations such as `(en)`.
pub const LANG_SWITCH_PATTERN: &'static str = r"\([^)]*\)";

/// Primary and secondary stress marks.
pub const STRESS_PATTERN: &'static str = r"[ˈˌ]";

/// One clause as the phonemizer engine reports it: its phonemes and the
/// terminator that tells its intonation and whether it ends a sentence.
#[derive(Debug, Clone)]
pub struct Clause {
    pub phonemes: String,
    pub terminator: i32,
}

/// Canonical decomposition (NFD) of a string.
pub uninterp spec fn nfd_of(s: Seq<char>) -> Seq<char>;

/// A text with every match of a regular expression removed.
pub uninterp spec fn regex_removed(pattern: Seq<char>, text: Seq<char>) -> Seq<char>;

/// Relies on unicode_normalization's `nfd`: canonical decomposition, which
/// depends on the characters alone.
#[verifier::external_body]
fn decompose(s: &str) -> (r: String)
    ensures
        r@ == nfd_of(s@),
{
    s.nfd().collect::<String>()
}

/// Relies on regex's `Regex::new` and `Regex::replace_all` with an empty
/// replacement; `None` where the pattern does not compile.
#[verifier::external_body]
fn remove_matches(pattern: &str, text: &str) -> (r: Option<String>)
    ensures
        r matches Some(t) ==> t@ == regex_removed(pattern@, text@),
{
    match regex::Regex::new(pattern) {
        Ok(re) => Some(re.replace_all(text, "").into_owned()),
        Err(_) => None,
    }
}

/// Relies on `String::from_iter` over characters: the string of those characters.
#[verifier::external_body]
fn string_of(chars: &Vec<char>) -> (r: String)
    ensures
        r@ == chars@,
{
    String::from_iter(chars.iter())
}

/// The phonemizer mode word: IPA output, with the separator's code point in
/// the bits above the lowest eight.
pub open spec fn spec_phoneme_mode(separator: Option<char>) -> int {
    match separator {
        Some(c) => (c as u32) * 256 + PHONEME_IPA,
        None => PHONEME_IPA as int,
    }
}

/// `None` where the mode word would not fit in an `i32`.
pub fn phoneme_mode(separator: Option<char>) -> (r: Option<i32>)
    ensures
        r matches Some(m) ==> m == spec_phoneme_mode(separator),
        r is None <==> spec_phoneme_mode(separator) > i32::MAX,
{
    match separator {
        Some(c) => {
            let code = c as u32;
            if code < 0x0080_0000 {
                Some((code * 256) as i32 + PHONEME_IPA)
            } else {
                None
            }
        },
        None => Some(PHONEME_IPA),
    }
}

/// The punctuation mark that a clause's intonation adds after it.
pub open spec fn clause_mark(terminator: i32) -> Seq<char> {
    let intonation = terminator & CLAUSE_INTONATION_MASK;
    if intonation == CLAUSE_INTONATION_FULL_STOP {
        seq!['.']
    } else if intonation == CLAUSE_INTONATION_COMMA {
        seq![',']
    } else if intonation == CLAUSE_INTONATION_QUESTION {
        seq!['?']
    } else if intonation == CLAUSE_INTONATION_EXCLAMATION {
        seq!['!']
    } else {
        Seq::empty()
    }
}

/// Whether a clause closes a sentence.
pub open spec fn ends_sentence(terminator: i32) -> bool {
    (terminator & CLAUSE_TYPE_SENTENCE) == CLAUSE_TYPE_SENTENCE
}

/// Sentences closed so far, and the sentence still open, after some clauses.
pub open spec fn fold_clauses(clauses: Seq<Clause>) -> (Seq<Seq<char>>, Seq<char>)
    decreases clauses.len(),
{
    if clauses.len() == 0 {
        (Seq::empty(), Seq::empty())
    } else {
        let (closed, open) = fold_clauses(clauses.drop_last());
        let c = clauses.last();
        let grown = open + nfd_of(c.phonemes@) + clause_mark(c.terminator);
        if ends_sentence(c.terminator) {
            (closed.push(grown), Seq::empty())
        } else {
            (closed, grown)
        }
    }
}

/// The sentences of one line of text, from its clauses.
pub open spec fn line_sentences(clauses: Seq<Clause>) -> Seq<Seq<char>> {
    let (closed, open) = fold_clauses(clauses);
    if open.len() > 0 {
        closed.push(open)
    } else {
        closed
    }
}

/// A sentence with language-switch annotations and stress marks removed on request.
pub open spec fn cleaned(s: Seq<char>, remove_lang_switch_flags: bool, remove_stress: bool) -> Seq<char> {
    let a = if remove_lang_switch_flags {
        regex_removed(LANG_SWITCH_PATTERN@, s)
    } else {
        s
    };
    if remove_stress {
        regex_removed(STRESS_PATTERN@, a)
    } else {
        a
    }
}

/// The sentences of all lines, in order.
pub open spec fn all_sentences(lines: Seq<Vec<Clause>>) -> Seq<Seq<char>>
    decreases lines.len(),
{
    if lines.len() == 0 {
        Seq::empty()
    } else {
        all_sentences(lines.drop_last()) + line_sentences(lines.last()@)
    }
}

/// The phoneme strings of all lines, cleaned.
pub open spec fn phonemized(lines: Seq<Vec<Clause>>, remove_lang_switch_flags: bool, remove_stress: bool) -> Seq<Seq<char>> {
    all_sentences(lines).map_values(
        |s: Seq<char>| cleaned(s, remove_lang_switch_flags, remove_stress),
    )
}

pub open spec fn views(v: Seq<String>) -> Seq<Seq<char>> {
    v.map_values(|s: String| s@)
}

/// Joins the clauses of one line into sentences: each clause adds its
/// decomposed phonemes and its intonation mark; a clause that ends a sentence
/// closes it; a last sentence left open is kept unless empty.
pub fn line_to_sentences(clauses: &Vec<Clause>) -> (r: Vec<String>)
    ensures
        views(r@) == line_sentences(clauses@),
{
    let mut sentences: Vec<String> = Vec::new();
    let mut current: Vec<char> = Vec::new();
    for i in 0..clauses.len()
        invariant
            (views(sentences@), current@) == fold_clauses(clauses@.take(i as int)),
    {
        proof {
            assert(clauses@.take(i + 1).drop_last() =~= clauses@.take(i as int));
        }
        let ghost start = current@;
        let decomposed = decompose(clauses[i].phonemes.as_str());
        let ghost mut pushed: int = 0;
        for c in it: decomposed.chars()
            invariant
                it.seq() == decomposed@,
                pushed == it.index(),
                current@ == start + decomposed@.take(pushed),
        {
            proof {
                assert(decomposed@.take(pushed + 1) =~= decomposed@.take(pushed).push(c));
                pushed = pushed + 1;
            }
            current.push(c);
        }
        proof {
            assert(decomposed@.take(pushed) =~= decomposed@);
        }
        let terminator = clauses[i].terminator;
        let intonation = terminator & CLAUSE_INTONATION_MASK;
        if intonation == CLAUSE_INTONATION_FULL_STOP {
            current.push('.');
        } else if intonation == CLAUSE_INTONATION_COMMA {
            current.push(',');
        } else if intonation == CLAUSE_INTONATION_QUESTION {
            current.push('?');
        } else if intonation == CLAUSE_INTONATION_EXCLAMATION {
            current.push('!');
        }
        proof {
            assert(current@ =~= start + nfd_of(clauses@[i as int].phonemes@) + clause_mark(terminator));
        }
        if (terminator & CLAUSE_TYPE_SENTENCE) == CLAUSE_TYPE_SENTENCE {
            let sentence = string_of(&current);
            sentences.push(sentence);
            current = Vec::new();
            proof {
                assert(views(sentences@) =~= fold_clauses(clauses@.take(i + 1)).0);
                assert(current@ =~= fold_clauses(clauses@.take(i + 1)).1);
            }
        }
    }
    proof {
        assert(clauses@.take(clauses.len() as int) =~= clauses@);
    }
    if current.len() > 0 {
        let sentence = string_of(&current);
        sentences.push(sentence);
        proof {
            assert(views(sentences@) =~= line_sentences(clauses@));
        }
    }
    sentences
}

/// Removes language-switch annotations and stress marks from a sentence, as asked.
pub fn clean_sentence(sentence: String, remove_lang_switch_flags: bool, remove_stress: bool) -> (r: Result<String, ESpeakError>)
    ensures
        r matches Ok(t) ==> t@ == cleaned(sentence@, remove_lang_switch_flags, remove_stress),
        !remove_lang_switch_flags && !remove_stress ==> (r matches Ok(t) && t@ == sentence@),
{
    let without_flags = if remove_lang_switch_flags {
        match remove_matches(LANG_SWITCH_PATTERN, sentence.as_str()) {
            Some(t) => t,
            None => {
                return Err(ESpeakError(String::from_str("invalid language-switch pattern")));
            },
        }
    } else {
        sentence
    };
    if remove_stress {
        match remove_matches(STRESS_PATTERN, without_flags.as_str()) {
            Some(t) => Ok(t),
            None => Err(ESpeakError(String::from_str("invalid stress pattern"))),
        }
    } else {
        Ok(without_flags)
    }
}

/// Phoneme strings, one per sentence, for text given as the phonemizer's
/// clauses of each of its lines, with language-switch annotations and stress
/// marks removed on request.
pub fn text_to_phonemes(lines: &Vec<Vec<Clause>>, remove_lang_switch_flags: bool, remove_stress: bool) -> (r: Result<Vec<String>, ESpeakError>)
    ensures
        r matches Ok(v) ==> views(v@) == phonemized(lines@, remove_lang_switch_flags, remove_stress),
        !remove_lang_switch_flags && !remove_stress ==> r is Ok,
{
    let mut phonemes: Vec<String> = Vec::new();
    for i in 0..lines.len()
        invariant
            views(phonemes@) == phonemized(lines@.take(i as int), remove_lang_switch_flags, remove_stress),
    {
        proof {
            assert(lines@.take(i + 1).drop_last() =~= lines@.take(i as int));
        }
        let sentences = line_to_sentences(&lines[i]);
        let ghost before = phonemes@;
        for j in 0..sentences.len()
            invariant
                views(phonemes@) == views(before) + views(sentences@.take(j as int)).map_values(
                    |s: Seq<char>| cleaned(s, remove_lang_switch_flags, remove_stress),
                ),
        {
            let ghost f = |s: Seq<char>| cleaned(s, remove_lang_switch_flags, remove_stress);
            let ghost prev = phonemes@;
            let t = clean_sentence(sentences[j].clone(), remove_lang_switch_flags, remove_stress);
            match t {
                Ok(t) => phonemes.push(t),
                Err(e) => {
                    return Err(e);
                },
            }
            proof {
                assert(views(phonemes@) =~= views(prev).push(f(sentences@[j as int]@)));
                assert(views(sentences@.take(j + 1)) =~= views(sentences@.take(j as int)).push(
                    sentences@[j as int]@,
                ));
                assert(views(phonemes@) =~= views(before) + views(sentences@.take(j + 1)).map_values(
                    |s: Seq<char>| cleaned(s, remove_lang_switch_flags, remove_stress),
                ));
            }
        }
        proof {
            assert(sentences@.take(sentences.len() as int) =~= sentences@);
            assert(views(phonemes@) =~= phonemized(lines@.take(i + 1), remove_lang_switch_flags, remove_stress));
        }
    }
    proof {
        assert(lines@.take(lines.len() as int) =~= lines@);
    }
    Ok(phonemes)
}

} // verus!
