use dzed::search::TextSearch;

#[test]
fn finds_overlapping_occurrences() {
    assert_eq!("abab".find_string("ab"), vec![(0, 2, "ab"), (2, 2, "ab")]);
    assert_eq!("aaa".find_string("aa"), vec![(0, 2, "aa"), (1, 2, "aa")]);
    assert!("abc".find_string("").is_empty());
    assert!("abc".find_string("abcd").is_empty());
    assert_eq!("é-ab".find_string("ab"), vec![(3, 2, "ab")]);
}

#[test]
fn splits_words_by_class_and_white_space() {
    let words = "foo bar_1 +=x".find_words();
    assert_eq!(words, vec![(0, 3, "foo"), (4, 9, "bar_1"), (10, 12, "+="), (12, 13, "x")]);
    assert!("   ".find_words().is_empty());
    assert_eq!("héllo wörld".find_words(), vec![(0, 6, "héllo"), (7, 13, "wörld")]);
}

#[test]
fn moves_between_words() {
    let text = "one two three";
    assert_eq!(text.find_next_word(0), Some((4, 7, "two")));
    assert_eq!(text.find_next_word(8), None);
    assert_eq!(text.find_previous_word(8), Some((4, 7, "two")));
    assert_eq!(text.find_previous_word(0), None);
    assert_eq!(text.find_next_word_end(2), Some((4, 7, "two")));
    assert_eq!(text.find_next_word_end(1), Some((0, 3, "one")));
    assert_eq!(text.find_previous_word_end(6), Some((0, 3, "one")));
    assert_eq!(text.find_current_word(5), Some((4, 7, "two")));
    assert_eq!(text.find_current_word(3), None);
}

#[test]
fn finds_the_next_equal_word() {
    let text = "a b a c a";
    assert_eq!(text.find_next_same_word(0, "a"), Some((4, 5, "a")));
    assert_eq!(text.find_next_same_word(4, "a"), Some((8, 9, "a")));
    assert_eq!(text.find_next_same_word(8, "a"), None);
}
