use intro_examples::ownership::{
    add_big_strings, add_big_strings_by_len, add_big_strings_two_pass, first_word,
    stringify_name_with_title, stringify_name_with_title_cloned, stringify_name_with_title_joined,
};

#[test]
fn stringify_owned_joins_and_titles() {
    let name = vec![String::from("John"), String::from("Doe")];
    assert_eq!(stringify_name_with_title(name), "John Doe Esq.");
}

#[test]
fn stringify_cloned_keeps_input() {
    let name = vec![String::from("John"), String::from("Doe")];
    assert_eq!(stringify_name_with_title_cloned(&name), "John Doe Esq.");
    assert_eq!(name.len(), 2);
    assert_eq!(name[0], "John");
    assert_eq!(name[1], "Doe");
}

#[test]
fn stringify_joined_appends_suffix() {
    let name = vec![String::from("John"), String::from("Doe")];
    assert_eq!(stringify_name_with_title_joined(&name), "John Doe Esq.");
}

#[test]
fn stringify_single_name() {
    let name = vec![String::from("John")];
    assert_eq!(stringify_name_with_title(name), "John Esq.");
}

#[test]
fn stringify_empty_list() {
    assert_eq!(stringify_name_with_title(Vec::new()), "Esq.");
    assert_eq!(stringify_name_with_title_joined(&Vec::new()), " Esq.");
}

fn sample_dst() -> Vec<String> {
    vec![String::from("ab")]
}

fn sample_src() -> Vec<String> {
    vec![String::from("abcd"), String::from("a"), String::from("abc")]
}

#[test]
fn add_big_strings_appends_strictly_longer() {
    let mut dst = sample_dst();
    add_big_strings(&mut dst, &sample_src());
    assert_eq!(dst, vec!["ab", "abcd", "abc"]);
}

#[test]
fn add_big_strings_two_pass_appends_strictly_longer() {
    let mut dst = sample_dst();
    add_big_strings_two_pass(&mut dst, &sample_src());
    assert_eq!(dst, vec!["ab", "abcd", "abc"]);
}

#[test]
fn add_big_strings_by_len_appends_strictly_longer() {
    let mut dst = sample_dst();
    add_big_strings_by_len(&mut dst, &sample_src());
    assert_eq!(dst, vec!["ab", "abcd", "abc"]);
}

#[test]
fn add_big_strings_equal_length_not_added() {
    let mut dst = vec![String::from("abc")];
    add_big_strings(&mut dst, &[String::from("xyz")]);
    assert_eq!(dst, vec!["abc"]);
}

#[test]
fn add_big_strings_empty_source() {
    let mut dst = vec![String::from("abc")];
    add_big_strings(&mut dst, &[]);
    assert_eq!(dst, vec!["abc"]);
}

#[test]
fn add_big_strings_uses_original_maximum() {
    // "ab" is longer than the original maximum even though the earlier
    // addition "abc" would exceed it: comparisons use the old maximum.
    let mut dst = vec![String::from("a")];
    add_big_strings(&mut dst, &[String::from("abc"), String::from("ab")]);
    assert_eq!(dst, vec!["a", "abc", "ab"]);

    let mut dst2 = vec![String::from("a")];
    add_big_strings_two_pass(&mut dst2, &[String::from("abc"), String::from("ab")]);
    assert_eq!(dst2, vec!["a", "abc", "ab"]);

    let mut dst3 = vec![String::from("a")];
    add_big_strings_by_len(&mut dst3, &[String::from("abc"), String::from("ab")]);
    assert_eq!(dst3, vec!["a", "abc", "ab"]);
}

#[test]
fn first_word_stops_at_space() {
    let s = String::from("Hello world");
    assert_eq!(first_word(&s), "Hello");
}

#[test]
fn first_word_without_space_is_whole() {
    let s = String::from("Hello");
    assert_eq!(first_word(&s), "Hello");
}

#[test]
fn first_word_of_empty_is_empty() {
    let s = String::new();
    assert_eq!(first_word(&s), "");
}

#[test]
fn first_word_of_leading_space_is_empty() {
    let s = String::from(" x");
    assert_eq!(first_word(&s), "");
}
