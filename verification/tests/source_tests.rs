use mecano::dictionary::Dictionary;
use mecano::modes::{MecanoDictionary, MecanoFile, MecanoMode, Mode, SourceError};
use mecano::strings::{split_words, str_eq, vec_to_str};

fn hundred_words() -> String {
    let mut text = String::new();
    for i in 0..100 {
        text.push_str(&format!("palabra{} ", i));
    }
    text
}

#[test]
fn printing_words() {
    let dict = Dictionary::new(&hundred_words()).unwrap();

    assert!(dict.possible_words.len() == 100);
}

#[test]
fn dictionary_printing_words() {
    let dict = MecanoDictionary::new(&hundred_words(), 80).unwrap();

    assert_eq!(dict.possible_words.len(), 100);
}

#[test]
fn true_random() {
    let mut dict = MecanoDictionary::new(&hundred_words(), 80).unwrap();

    let left_line = dict.yield_words();
    let right_line = dict.yield_words();

    assert!(!left_line.iter().eq(right_line.iter()));
}

#[test]
fn true_randome() {
    let mut dict = MecanoDictionary::new(&hundred_words(), 80).unwrap();

    let left_line = dict.yield_words();
    let right_line = dict.yield_words();

    assert!(!left_line.iter().eq(right_line.iter()));
}

#[test]
fn file_deterministic() {
    let contents = "uno dos tres cuatro cinco";
    let mut mecano_file = MecanoFile::new(contents, 80).unwrap();

    for word in contents.split_whitespace() {
        assert_eq!(word, mecano_file.yield_word());
    }
}

#[test]
fn file_replay_matches_between_sources() {
    // two fresh sources over the same backing text yield the same words
    let contents = "alpha beta gamma";
    let mut a = MecanoFile::new(contents, 80).unwrap();
    let mut b = MecanoFile::new(contents, 80).unwrap();
    for _ in 0..10 {
        assert_eq!(a.yield_word(), b.yield_word());
    }
}

#[test]
fn file_source_cycles() {
    let mut source = MecanoFile::new("ab cd", 80).unwrap();
    assert_eq!(source.yield_word(), "ab");
    assert_eq!(source.yield_word(), "cd");
    assert_eq!(source.yield_word(), "ab");
}

#[test]
fn over_long_words_are_dropped_at_load() {
    let source = MecanoFile::new("tiny enormousword ok", 5).unwrap();
    assert_eq!(source.file_words, vec!["tiny".to_string(), "ok".to_string()]);
}

#[test]
fn empty_word_list_is_a_construction_error() {
    assert_eq!(MecanoFile::new("   \n\t ", 80).unwrap_err(), SourceError::NoUsableWords);
    assert_eq!(MecanoDictionary::new("", 80).unwrap_err(), SourceError::NoUsableWords);
    assert_eq!(Dictionary::new("").unwrap_err(), SourceError::NoUsableWords);
}

#[test]
fn unknown_mode_is_rejected() {
    let r = Mode::new("internet", "some words here", 80);
    assert_eq!(r.unwrap_err(), SourceError::InvalidMode);
    assert!(Mode::valid_str("file"));
    assert!(Mode::valid_str("dictionary"));
    assert!(!Mode::valid_str("files"));
}

#[test]
fn single_word_dictionary_always_yields_it() {
    // the random draw can only land inside the list
    let mut dict = MecanoDictionary::new("solo", 80).unwrap();
    for _ in 0..20 {
        assert_eq!(dict.yield_word(), "solo");
    }
}

#[test]
fn dictionary_lines_respect_the_width() {
    let dict = Dictionary::new(&hundred_words()).unwrap();
    for _ in 0..10 {
        let line = dict.yield_words(40);
        let width: usize = line.iter().map(|w| w.chars().count() + 1).sum();
        assert!(width <= 40);
        for w in &line {
            assert!(dict.possible_words.contains(w));
        }
    }
}

#[test]
fn split_words_takes_maximal_runs() {
    let words = split_words(" one\ttwo\n\nthree ");
    assert_eq!(words, vec!["one".to_string(), "two".to_string(), "three".to_string()]);
    assert!(split_words("").is_empty());
}

#[test]
fn str_eq_compares_by_characters() {
    assert!(str_eq("hola", "hola"));
    assert!(!str_eq("hola", "hole"));
    assert!(!str_eq("hola", "hol"));
}

#[test]
fn vec_to_str_joins_with_trailing_spaces() {
    let words = vec!["Hola".to_string(), "que".to_string(), "tal".to_string()];
    assert_eq!(vec_to_str(&words), "Hola que tal ");
}
