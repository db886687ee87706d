use find_words::can_be_constructed;
use find_words::get_letters_count;

#[test]
fn word_can_be_constructed() {
    let word = get_letters_count("dog");
    let list = get_letters_count("dodge");

    assert!(can_be_constructed(&word, &list));
}

#[test]
#[should_panic]
fn word_cannot_be_constructed() {
    let word = get_letters_count("dodgy");
    let list = get_letters_count("dodge");

    assert!(can_be_constructed(&word, &list));
}

#[test]
#[should_panic]
fn empty_list() {
    let word = get_letters_count("something");
    let list = get_letters_count("");

    assert!(can_be_constructed(&word, &list));
}

#[test]
#[should_panic]
fn empty_string_for_word() {
    let word = get_letters_count("");
    let list = get_letters_count("list");

    assert!(can_be_constructed(&word, &list));
}

#[test]
fn empty_word_fails_even_with_letters_available() {
    let word = get_letters_count("?!123");
    let list = get_letters_count("plenty of letters here");

    assert!(!can_be_constructed(&word, &list));
}

#[test]
fn exact_counts_suffice() {
    let word = get_letters_count("mammal");
    let list = get_letters_count("mammal");

    assert!(can_be_constructed(&word, &list));
}

#[test]
fn one_copy_short_fails() {
    let word = get_letters_count("mammal");
    let list = get_letters_count("mamal");

    assert!(!can_be_constructed(&word, &list));
}
