use piper_vits::phonemize::{
    clean_sentence, line_to_sentences, phoneme_mode, text_to_phonemes, Clause,
    CLAUSE_INTONATION_COMMA, CLAUSE_INTONATION_EXCLAMATION, CLAUSE_INTONATION_FULL_STOP,
    CLAUSE_INTONATION_QUESTION, CLAUSE_TYPE_SENTENCE,
};

fn clause(phonemes: &str, intonation: i32, ends_sentence: bool) -> Clause {
    let terminator = if ends_sentence { intonation | CLAUSE_TYPE_SENTENCE } else { intonation };
    Clause { phonemes: phonemes.to_string(), terminator }
}

fn sentence(phonemes: &str) -> Clause {
    clause(phonemes, CLAUSE_INTONATION_FULL_STOP, true)
}

// "Who are you? said the Caterpillar. Replied Alice , rather shyly, I hardly know, sir!"
fn alice() -> Vec<Vec<Clause>> {
    vec![vec![
        clause("hˈuː ɑːɹ juː", CLAUSE_INTONATION_QUESTION, true),
        clause("sˈɛd ðə kˈæɾɚpˌɪlɚ", CLAUSE_INTONATION_FULL_STOP, true),
        clause("ɹᵻplˈaɪd ˈælɪs", CLAUSE_INTONATION_COMMA, false),
        clause("ɹˈæðɚ ʃˈaɪli", CLAUSE_INTONATION_COMMA, false),
        clause("aɪ hˈɑːɹdli nˈoʊ", CLAUSE_INTONATION_COMMA, false),
        clause("sˈɜː", CLAUSE_INTONATION_EXCLAMATION, true),
    ]]
}

#[test]
fn test_basic_en() {
    let text = vec![vec![sentence("tˈɛst")]];
    let expected = "tˈɛst.";
    let phonemes = text_to_phonemes(&text, false, false).unwrap().join("");
    assert_eq!(phonemes, expected);
}

#[test]
fn test_it_splits_sentences() {
    let phonemes = text_to_phonemes(&alice(), false, false).unwrap();
    assert_eq!(phonemes.len(), 3);
}

#[test]
fn test_it_adds_phoneme_separator() {
    assert_eq!(phoneme_mode(Some('_')), Some(('_' as i32) * 256 + 2));
    let text = vec![vec![sentence("t_ˈɛ_s_t")]];
    let expected = "t_ˈɛ_s_t.";
    let phonemes = text_to_phonemes(&text, false, false).unwrap().join("");
    assert_eq!(phonemes, expected);
}

#[test]
fn test_it_preserves_clause_breakers() {
    let phonemes = text_to_phonemes(&alice(), false, false).unwrap().join("");
    let clause_breakers = ['.', ',', '?', '!'];
    for c in clause_breakers {
        assert_eq!(phonemes.contains(c), true, "Clause breaker `{}` not preserved", c);
    }
}

#[test]
fn test_arabic() {
    let text = vec![vec![sentence("mˈarħabˌaː bikˌa ʔaˈiːuhˌaː alrrˈadʒul")]];
    let expected = "mˈarħabˌaː bikˌa ʔaˈiːuhˌaː alrrˈadʒul.";
    let phonemes = text_to_phonemes(&text, false, false).unwrap().join("");
    assert_eq!(phonemes, expected);
}

#[test]
fn test_lang_switch_flags() {
    let text = vec![vec![sentence("(en)həlˈoʊ(ar) maʕnaːhaː marħabˈan")]];

    let with_lang_switch = text_to_phonemes(&text, false, false).unwrap().join("");
    assert_eq!(with_lang_switch.contains("(en)"), true);
    assert_eq!(with_lang_switch.contains("(ar)"), true);

    let without_lang_switch = text_to_phonemes(&text, true, false).unwrap().join("");
    assert_eq!(without_lang_switch.contains("(en)"), false);
    assert_eq!(without_lang_switch.contains("(ar)"), false);
}

#[test]
fn test_stress() {
    let stress_markers = ['ˈ', 'ˌ'];

    let with_stress = text_to_phonemes(&alice(), false, false).unwrap().join("");
    assert_eq!(with_stress.contains(stress_markers), true);

    let without_stress = text_to_phonemes(&alice(), false, true).unwrap().join("");
    assert_eq!(without_stress.contains(stress_markers), false);
}

#[test]
fn test_line_splitting() {
    // "Hello\nThere\nAnd\nWelcome", one line each
    let text = vec![
        vec![sentence("həlˈoʊ")],
        vec![sentence("ðˈɛɹ")],
        vec![sentence("ˈænd")],
        vec![sentence("wˈɛlkʌm")],
    ];
    let phoneme_paragraphs = text_to_phonemes(&text, false, false).unwrap();
    assert_eq!(phoneme_paragraphs.len(), 4);
}

#[test]
fn clauses_are_decomposed() {
    // "ç" is one composed code point; the sentence holds "c" and a combining cedilla
    let sentences = line_to_sentences(&vec![sentence("\u{e7}")]);
    assert_eq!(sentences, vec!["c\u{327}.".to_string()]);
}

#[test]
fn open_sentence_is_kept_and_empty_one_dropped() {
    let line = vec![
        clause("a", CLAUSE_INTONATION_COMMA, false),
        clause("b", CLAUSE_INTONATION_QUESTION, true),
        clause("c", CLAUSE_INTONATION_EXCLAMATION, false),
    ];
    assert_eq!(line_to_sentences(&line), vec!["a,b?".to_string(), "c!".to_string()]);
    assert_eq!(line_to_sentences(&vec![]), Vec::<String>::new());
}

#[test]
fn unknown_intonation_adds_no_mark() {
    let line = vec![clause("a", 0x4000, true)];
    assert_eq!(line_to_sentences(&line), vec!["a".to_string()]);
}

#[test]
fn clean_sentence_removes_flags_and_stress() {
    let s = "(en)hˈɛlˌoʊ(ar)x".to_string();
    assert_eq!(clean_sentence(s.clone(), true, false).unwrap(), "hˈɛlˌoʊx");
    assert_eq!(clean_sentence(s.clone(), false, true).unwrap(), "(en)hɛloʊ(ar)x");
    assert_eq!(clean_sentence(s.clone(), true, true).unwrap(), "hɛloʊx");
    assert_eq!(clean_sentence(s.clone(), false, false).unwrap(), s);
    // an unclosed parenthesis is no annotation
    assert_eq!(clean_sentence("(en x".to_string(), true, false).unwrap(), "(en x");
}

#[test]
fn phoneme_mode_without_separator() {
    assert_eq!(phoneme_mode(None), Some(2));
}
