use find_words::generate_random_string;

#[test]
fn length_of_4() {
    let output = generate_random_string(Some(4));
    let expected = 4;
    assert_eq!(output.chars().filter(|c| c.is_ascii_alphabetic()).count(), expected);
}

#[test]
fn length_of_8() {
    let output = generate_random_string(Some(8));
    let expected = 8;
    assert_eq!(output.chars().filter(|c| c.is_ascii_alphabetic()).count(), expected);
}

#[test]
fn length_of_20_string() {
    let output = generate_random_string(Some(20));
    let expected = 20;
    assert_eq!(output.chars().filter(|c| c.is_ascii_alphabetic()).count(), expected);
}

#[test]
fn length_of_50_string() {
    let output = generate_random_string(Some(50));
    let expected = 50;
    assert_eq!(output.chars().filter(|c| c.is_ascii_alphabetic()).count(), expected);
}

#[test]
fn length_of_100_string() {
    let output = generate_random_string(Some(100));
    let expected = 100;
    assert_eq!(output.chars().filter(|c| c.is_ascii_alphabetic()).count(), expected);
}

#[test]
fn length_of_200_string() {
    let output = generate_random_string(Some(200));
    let expected = 200;
    assert_eq!(output.chars().filter(|c| c.is_ascii_alphabetic()).count(), expected);
}

#[test]
fn input_none() {
    let output = generate_random_string(None);
    let expected = output.len();
    assert_eq!(output.chars().filter(|c| c.is_ascii_alphabetic()).count(), expected);
}

#[test]
fn input_none_length_in_range() {
    let output = generate_random_string(None);
    assert!(1 <= output.len() && output.len() <= 200);
}

#[test]
fn only_lowercase_letters() {
    let output = generate_random_string(Some(100));
    assert!(output.chars().all(|c| c.is_ascii_lowercase()));
}
