use streaming_qr::{greet, ping, validate_data, DataReport};

#[test]
fn greet_sets_the_name_into_the_wording() {
    assert_eq!(greet("Ada"), "Hello, Ada! You've been greeted from Rust!");
}

#[test]
fn greet_accepts_the_empty_name() {
    assert_eq!(greet(""), "Hello, ! You've been greeted from Rust!");
}

#[test]
fn ping_answers_pong() {
    assert_eq!(ping(), "pong");
}

#[test]
fn validate_data_of_the_empty_text() {
    let expected = DataReport { size: 0, is_utf8: true, line_count: 0, word_count: 0, is_empty: true };
    assert_eq!(validate_data(""), expected);
}

#[test]
fn validate_data_of_two_words() {
    let expected =
        DataReport { size: 11, is_utf8: true, line_count: 1, word_count: 2, is_empty: false };
    assert_eq!(validate_data("hello world"), expected);
}

#[test]
fn validate_data_counts_an_open_last_line() {
    assert_eq!(validate_data("a\nb\nc").line_count, 3);
}
