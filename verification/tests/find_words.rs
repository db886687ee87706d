use find_words::Word;
use find_words::filter_constructible;
use find_words::get_constructable_words;
use find_words::get_letters_count;
use find_words::words_from_lines;

fn reference_dictionary() -> Vec<Word> {
    let lines: Vec<String> = [
        "arm", "art", "back", "camp", "cap", "cub", "cup", "cow", "dog", "milk", "cat", "goat",
        "mammal",
    ]
        .iter()
        .map(|w| w.to_string())
        .collect();
    words_from_lines(lines)
}

#[test]
fn find_words_in_4_letter_list() {
    let words = reference_dictionary();
    let list = get_letters_count("cmbl");
    let output = get_constructable_words(words, &list);
    assert_eq!(output, Vec::<String>::new());
}

#[test]
fn find_words_in_8_letter_list() {
    let words = reference_dictionary();
    let list = get_letters_count("wartsmrf");
    let output = get_constructable_words(words, &list);
    assert_eq!(output, vec!["arm".to_string(), "art".to_string()]);
}

#[test]
fn find_words_in_20_letter_list() {
    let words = reference_dictionary();
    let list = get_letters_count("fsucwcaumvxvkfvpbkjw");
    let output = get_constructable_words(words, &list);
    let expected: Vec<String> = ["back", "camp", "cap", "cub", "cup"]
        .iter()
        .map(|w| w.to_string())
        .collect();
    assert_eq!(output, expected);
}

#[test]
fn sequential_filter_agrees_with_parallel() {
    let list = get_letters_count("fsucwcaumvxvkfvpbkjw");
    let sequential = filter_constructible(reference_dictionary(), &list);
    let parallel = get_constructable_words(reference_dictionary(), &list);
    assert_eq!(sequential, parallel);
}

#[test]
fn output_keeps_input_order() {
    let words = words_from_lines(vec![
        "cup".to_string(),
        "milk".to_string(),
        "cub".to_string(),
        "cap".to_string(),
    ]);
    let list = get_letters_count("fsucwcaumvxvkfvpbkjw");
    let output = get_constructable_words(words, &list);
    let expected: Vec<String> = ["cup", "cub", "cap"].iter().map(|w| w.to_string()).collect();
    assert_eq!(output, expected);
}

#[test]
fn empty_word_list_yields_empty_output() {
    let list = get_letters_count("abc");
    let output = get_constructable_words(Vec::new(), &list);
    assert_eq!(output, Vec::<String>::new());
}

#[test]
fn words_from_lines_pairs_each_line_with_its_counts() {
    let words = words_from_lines(vec!["Dodge!".to_string(), "".to_string()]);
    assert_eq!(words.len(), 2);
    assert_eq!(words[0].value, "Dodge!");
    assert_eq!(words[0].letters, get_letters_count("dodge"));
    assert_eq!(words[1].value, "");
    assert_eq!(words[1].letters, get_letters_count(""));
}

#[test]
fn word_new_keeps_the_value_verbatim() {
    let word = Word::new("  CAT 9".to_string());
    assert_eq!(word.value, "  CAT 9");
    assert_eq!(word.letters, get_letters_count("cat"));
}

#[test]
fn mammal_needs_three_ms_and_two_as() {
    let words = words_from_lines(vec!["mammal".to_string()]);
    let output = get_constructable_words(words, &get_letters_count("mammal"));
    assert_eq!(output, vec!["mammal".to_string()]);

    let words = words_from_lines(vec!["mammal".to_string()]);
    let output = get_constructable_words(words, &get_letters_count("mamal"));
    assert_eq!(output, Vec::<String>::new());
}
