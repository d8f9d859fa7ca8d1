use std::cell::{Cell, RefCell};
use streaming_qr::save::{generated_file_name, save_outcome, target_file_name};
use streaming_qr::save_decoded_data;

#[test]
fn generated_file_name_holds_the_seconds() {
    assert_eq!(generated_file_name(0), "decoded_stream_0.txt");
    assert_eq!(generated_file_name(1_700_000_000), "decoded_stream_1700000000.txt");
    assert_eq!(generated_file_name(u64::MAX), "decoded_stream_18446744073709551615.txt");
}

#[test]
fn generated_file_name_has_stem_digits_and_extension() {
    for seconds in [0u64, 9, 10, 1_234_567, 1_761_609_600, u64::MAX] {
        let name = generated_file_name(seconds);
        let digits = name
            .strip_prefix("decoded_stream_")
            .and_then(|rest| rest.strip_suffix(".txt"))
            .expect("stem and extension");
        assert!(!digits.is_empty());
        assert!(digits.chars().all(|c| c.is_ascii_digit()));
        assert_eq!(digits.parse::<u64>(), Ok(seconds));
    }
}

#[test]
fn target_file_name_keeps_a_given_name_and_leaves_the_clock_alone() {
    let asked = Cell::new(false);
    let name = target_file_name(Some(String::from("out.txt")), || {
        asked.set(true);
        5
    });
    assert_eq!(name, "out.txt");
    assert!(!asked.get());
}

#[test]
fn target_file_name_generates_from_the_clock() {
    let asked = Cell::new(0u32);
    let name = target_file_name(None, || {
        asked.set(asked.get() + 1);
        1_700_000_000
    });
    assert_eq!(name, "decoded_stream_1700000000.txt");
    assert_eq!(asked.get(), 1);
}

#[test]
fn target_file_name_keeps_an_empty_name() {
    assert_eq!(target_file_name(Some(String::new()), || 1), "");
}

#[test]
fn save_outcome_confirms_with_the_file_name() {
    assert_eq!(save_outcome("out.txt", Ok(())), Ok(String::from("Data saved to: out.txt")));
}

#[test]
fn save_outcome_reports_the_cause() {
    assert_eq!(
        save_outcome("out.txt", Err(String::from("Permission denied (os error 13)"))),
        Err(String::from("Failed to save file: Permission denied (os error 13)"))
    );
}

#[test]
fn save_decoded_data_writes_the_data_under_the_given_name() {
    let written: RefCell<Vec<(String, String)>> = RefCell::new(Vec::new());
    let outcome = save_decoded_data(
        String::from("content"),
        Some(String::from("out.txt")),
        || 1,
        |name, content| {
            written.borrow_mut().push((name, content));
            Ok(())
        },
    );
    assert_eq!(outcome, Ok(String::from("Data saved to: out.txt")));
    assert!(outcome.unwrap().contains("out.txt"));
    assert_eq!(*written.borrow(), vec![(String::from("out.txt"), String::from("content"))]);
}

#[test]
fn save_decoded_data_generates_a_name_where_none_is_given() {
    let written: RefCell<Vec<(String, String)>> = RefCell::new(Vec::new());
    let outcome = save_decoded_data(
        String::from("content"),
        None,
        || 1_761_609_600,
        |name, content| {
            written.borrow_mut().push((name, content));
            Ok(())
        },
    );
    assert_eq!(outcome, Ok(String::from("Data saved to: decoded_stream_1761609600.txt")));
    assert_eq!(
        *written.borrow(),
        vec![(String::from("decoded_stream_1761609600.txt"), String::from("content"))]
    );
}

#[test]
fn save_decoded_data_reports_a_failed_write() {
    let calls = Cell::new(0u32);
    let outcome = save_decoded_data(
        String::from("content"),
        Some(String::from("/no/such/dir/out.txt")),
        || 1,
        |_name, _content| {
            calls.set(calls.get() + 1);
            Err(String::from("No such file or directory (os error 2)"))
        },
    );
    assert_eq!(
        outcome,
        Err(String::from("Failed to save file: No such file or directory (os error 2)"))
    );
    assert_eq!(calls.get(), 1);
}

#[test]
fn save_decoded_data_writes_empty_data_too() {
    let written: RefCell<Vec<(String, String)>> = RefCell::new(Vec::new());
    let outcome = save_decoded_data(String::new(), Some(String::from("empty.txt")), || 1, |name, content| {
        written.borrow_mut().push((name, content));
        Ok(())
    });
    assert_eq!(outcome, Ok(String::from("Data saved to: empty.txt")));
    assert_eq!(*written.borrow(), vec![(String::from("empty.txt"), String::new())]);
}
