use text_analyzer::analysis::{analyze, count_sentence_marks, first_longest, lowercase_all, AnalysisResult};
use text_analyzer::chars::{chars_of, count_non_ws};
use text_analyzer::freq::{count_matches, histogram_keys, letter_histogram, most_common, tally};
use text_analyzer::words::split_words;

fn avg(r: &AnalysisResult) -> f64 {
    if r.word_count == 0 {
        0.0
    } else {
        r.total_word_length as f64 / r.word_count as f64
    }
}

fn freq_of(r: &AnalysisResult, c: char) -> Option<usize> {
    r.char_freq.iter().find(|e| e.0 == c).map(|e| e.1)
}

#[test]
fn scenario_hello_world() {
    let r = analyze("Hello world! Hello.", None);
    assert_eq!(r.word_count, 3);
    assert_eq!(r.sentence_count, 2);
    assert_eq!(r.longest_word.as_deref(), Some("world!"));
    assert_eq!(r.longest_word_length, Some(6));
    assert_eq!(r.char_count, 19);
    assert_eq!(r.letter_count, 17);
    assert_eq!(r.total_word_length, 17);
    assert_eq!(freq_of(&r, 'l'), Some(5));
    assert_eq!(freq_of(&r, 'h'), Some(2));
}

#[test]
fn scenario_empty_input() {
    let r = analyze("", None);
    assert_eq!(r.word_count, 0);
    assert_eq!(r.char_count, 0);
    assert_eq!(r.longest_word, None);
    assert_eq!(r.longest_word_length, None);
    assert_eq!(r.most_common_word, None);
    assert_eq!(r.most_common_word_count, None);
    assert_eq!(r.search_word, None);
    assert_eq!(r.search_word_count, None);
    assert_eq!(avg(&r), 0.0);
    assert!(r.char_freq.is_empty());
}

#[test]
fn scenario_search_cat() {
    let r = analyze("cat cat dog", Some("cat"));
    assert_eq!(r.search_word.as_deref(), Some("cat"));
    assert_eq!(r.search_word_count, Some(2));
    assert_eq!(r.most_common_word.as_deref(), Some("cat"));
    assert_eq!(r.most_common_word_count, Some(2));
}

#[test]
fn scenario_digits_and_punctuation() {
    let r = analyze("123 456!", None);
    assert!(r.char_freq.is_empty());
    assert_eq!(r.letter_count, 7);
    assert_eq!(r.sentence_count, 1);
    assert_eq!(r.word_count, 2);
}

#[test]
fn mixed_case_word() {
    let r = analyze("AbC", None);
    assert_eq!(r.char_freq.len(), 3);
    assert_eq!(freq_of(&r, 'a'), Some(1));
    assert_eq!(freq_of(&r, 'b'), Some(1));
    assert_eq!(freq_of(&r, 'c'), Some(1));
    assert_eq!(r.most_common_word.as_deref(), Some("abc"));
    assert_eq!(r.most_common_word_count, Some(1));
}

#[test]
fn word_count_counts_runs() {
    let r = analyze("  one\t\ttwo \n three  ", None);
    assert_eq!(r.word_count, 3);
    let r = analyze("   \n\t ", None);
    assert_eq!(r.word_count, 0);
    let r = analyze("a\u{3000}b\u{a0}c", None);
    assert_eq!(r.word_count, 3);
}

#[test]
fn letters_within_chars() {
    let r = analyze("a b  c", None);
    assert_eq!(r.char_count, 6);
    assert_eq!(r.letter_count, 3);
    let r = analyze("abc!", None);
    assert_eq!(r.char_count, r.letter_count);
}

#[test]
fn average_word_length() {
    let r = analyze("ab abcd", None);
    assert_eq!(r.total_word_length, 6);
    assert_eq!(avg(&r), 3.0);
    let r = analyze("a bb bb", None);
    assert!((avg(&r) - 5.0 / 3.0).abs() < 1e-12);
}

#[test]
fn same_text_same_counts() {
    let text = "the quick brown fox... jumps? over the lazy dog!";
    let a = analyze(text, None);
    let b = analyze(text, Some("the"));
    assert_eq!(a.word_count, b.word_count);
    assert_eq!(a.char_count, b.char_count);
    assert_eq!(a.letter_count, b.letter_count);
    assert_eq!(a.sentence_count, b.sentence_count);
    assert_eq!(a.longest_word_length, b.longest_word_length);
    assert_eq!(a.total_word_length, b.total_word_length);
    assert_eq!(a.sentence_count, 5);
    assert_eq!(b.search_word_count, Some(2));
}

#[test]
fn search_is_case_insensitive_and_exact() {
    let r = analyze("Cat CAT cat cats", Some("CaT"));
    assert_eq!(r.search_word.as_deref(), Some("cat"));
    assert_eq!(r.search_word_count, Some(3));
    let r = analyze("cat dog", Some(""));
    assert_eq!(r.search_word_count, Some(0));
}

#[test]
fn non_ascii_letters_are_lowercased() {
    let r = analyze("Érd ÉS", None);
    assert_eq!(freq_of(&r, 'é'), Some(2));
    assert_eq!(freq_of(&r, 'É'), None);
    assert_eq!(r.char_count, 6);
}

#[test]
fn first_longest_wins_ties() {
    assert_eq!(first_longest(&vec![2, 5, 5, 1]), Some(1));
    assert_eq!(first_longest(&vec![]), None);
    assert_eq!(first_longest(&vec![0]), Some(0));
}

#[test]
fn most_common_counts() {
    let ws: Vec<String> = vec!["b".to_string(), "a".to_string(), "a".to_string(), "b".to_string(), "a".to_string()];
    assert_eq!(most_common(&ws), Some(("a".to_string(), 3)));
    assert_eq!(most_common(&vec![]), None);
}

#[test]
fn count_matches_exact() {
    let ws: Vec<String> = vec!["ab".to_string(), "a".to_string(), "ab".to_string()];
    assert_eq!(count_matches(&ws, &"ab".to_string()), 2);
    assert_eq!(count_matches(&ws, &"b".to_string()), 0);
}

#[test]
fn sentence_marks_count_repeats() {
    let c = chars_of("Wait... what?! 3.5");
    assert_eq!(count_sentence_marks(&c), 6);
}

#[test]
fn split_words_lengths() {
    let c = chars_of(" héllo  wörld ");
    let (ws, lens) = split_words(&c);
    assert_eq!(ws, vec!["héllo".to_string(), "wörld".to_string()]);
    assert_eq!(lens, vec![5, 5]);
}

#[test]
fn histogram_counts_letters_only() {
    let c = chars_of("aA1 b!");
    let h = letter_histogram(&c);
    assert_eq!(h, vec![('a', 2), ('b', 1)]);
}

#[test]
fn char_helpers() {
    assert_eq!(count_non_ws(&chars_of("a\u{2028}b\u{85}c x")), 4);
    assert_eq!(letter_histogram(&chars_of("Ő7Q")), vec![('ő', 1), ('q', 1)]);
    assert_eq!(count_non_ws(&chars_of("a b\tc\n")), 3);
    assert_eq!(chars_of("ab"), vec!['a', 'b']);
}

#[test]
fn lowercase_all_words() {
    let ws: Vec<String> = vec!["ABC".to_string(), "dEf".to_string()];
    assert_eq!(lowercase_all(&ws), vec!["abc".to_string(), "def".to_string()]);
}

#[test]
fn tally_counts_keys() {
    let keys = vec![Some('x'), None, Some('y'), Some('x'), None];
    assert_eq!(tally(&keys), vec![('x', 2), ('y', 1)]);
    assert_eq!(tally(&vec![None, None]), vec![]);
}

#[test]
fn keys_lowercase_letters_only() {
    let c = chars_of("Ab3 Ü.");
    assert_eq!(histogram_keys(&c), vec![Some('a'), Some('b'), None, None, Some('ü'), None]);
}
