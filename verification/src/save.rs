//! Saving a decoded stream: which file it goes to, and what the caller is
//! told afterwards. The clock and the file system are the caller's; they
//! come in as two functions.

use vstd::prelude::*;
use vstd::string::StringExecFns;
use crate::decimal::{
    append_decimal, decimal_digits, is_digit, lemma_decimal_digits_are_digits,
    lemma_decimal_round_trip,
};

verus! {

/// The name of the file that a stream saved at `seconds` after the Unix
/// epoch goes to when the caller names none.
pub open spec fn generated_name(seconds: u64) -> Seq<char> {
    "decoded_stream_"@ + decimal_digits(seconds as nat) + ".txt"@
}

/// What the caller is told when the stream has been written to `file_name`.
pub open spec fn saved_message(file_name: Seq<char>) -> Seq<char> {
    "Data saved to: "@ + file_name
}

/// What the caller is told when writing failed for the reason `cause`.
pub open spec fn failure_message(cause: Seq<char>) -> Seq<char> {
    "Failed to save file: "@ + cause
}

/// Whether `name` has the form of a generated name: the fixed stem, one or
/// more decimal digits, the fixed extension.
pub open spec fn is_generated_name(name: Seq<char>) -> bool {
    exists|digits: Seq<char>|
        {
            &&& digits.len() >= 1
            &&& forall|i: int| 0 <= i < digits.len() ==> is_digit(#[trigger] digits[i])
            &&& name == "decoded_stream_"@ + digits + ".txt"@
        }
}

/// Every generated name has the form of one.
pub proof fn lemma_generated_name_form(seconds: u64)
    ensures
        is_generated_name(generated_name(seconds)),
{
    let digits = decimal_digits(seconds as nat);
    lemma_decimal_digits_are_digits(seconds as nat);
    assert(generated_name(seconds) == "decoded_stream_"@ + digits + ".txt"@);
}

/// Two times give the same generated name only if they are the same second.
pub proof fn lemma_generated_name_tells_seconds(first: u64, second: u64)
    requires
        generated_name(first) == generated_name(second),
    ensures
        first == second,
{
    let stem = "decoded_stream_"@;
    let ext = ".txt"@;
    let a = decimal_digits(first as nat);
    let b = decimal_digits(second as nat);
    let x = stem + a + ext;
    let y = stem + b + ext;
    assert(x.len() == stem.len() + a.len() + ext.len());
    assert(y.len() == stem.len() + b.len() + ext.len());
    assert(a =~= x.subrange(stem.len() as int, (stem.len() + a.len()) as int));
    assert(b =~= y.subrange(stem.len() as int, (stem.len() + b.len()) as int));
    lemma_decimal_round_trip(first as nat);
    lemma_decimal_round_trip(second as nat);
}

/// The confirmation ends with the name of the file, whole.
pub proof fn lemma_saved_message_names_file(file_name: Seq<char>)
    ensures
        saved_message(file_name).len() == "Data saved to: "@.len() + file_name.len(),
        saved_message(file_name).subrange(
            "Data saved to: "@.len() as int,
            saved_message(file_name).len() as int,
        ) == file_name,
{
    let stem = "Data saved to: "@;
    assert((stem + file_name).subrange(stem.len() as int, (stem + file_name).len() as int)
        =~= file_name);
}

/// The failure report ends with the cause, whole.
pub proof fn lemma_failure_message_tells_cause(cause: Seq<char>)
    ensures
        failure_message(cause).len() == "Failed to save file: "@.len() + cause.len(),
        failure_message(cause).subrange(
            "Failed to save file: "@.len() as int,
            failure_message(cause).len() as int,
        ) == cause,
{
    let stem = "Failed to save file: "@;
    assert((stem + cause).subrange(stem.len() as int, (stem + cause).len() as int) =~= cause);
}

/// Builds [`generated_name`].
pub fn generated_file_name(seconds: u64) -> (name: String)
    ensures
        name@ == generated_name(seconds),
{
    let mut name = String::from_str("decoded_stream_");
    append_decimal(&mut name, seconds);
    name.append(".txt");
    name
}

/// The file that a stream goes to: the one that the caller names, else the
/// generated one for the time that `clock` gives. The clock is read only
/// where no name is given.
pub fn target_file_name<C: FnOnce() -> u64>(filename: Option<String>, clock: C) -> (name: String)
    requires
        clock.requires(()),
    ensures
        filename matches Some(given) ==> name@ == given@,
        filename is None ==> exists|seconds: u64|
            clock.ensures((), seconds) && name@ == generated_name(seconds),
{
    match filename {
        Some(given) => given,
        None => {
            let seconds = clock();
            generated_file_name(seconds)
        },
    }
}

/// What the caller is told once writing to `file_name` has ended as
/// `written` says: the confirmation with the file's name, or the failure
/// with its cause.
pub fn save_outcome(file_name: &str, written: Result<(), String>) -> (outcome: Result<String, String>)
    ensures
        written is Ok ==> (outcome matches Ok(message) && message@ == saved_message(file_name@)),
        written matches Err(cause) ==> (outcome matches Err(message) && message@ == failure_message(
            cause@,
        )),
{
    match written {
        Ok(_) => {
            let mut message = String::from_str("Data saved to: ");
            message.append(file_name);
            Ok(message)
        },
        Err(cause) => {
            let mut message = String::from_str("Failed to save file: ");
            message.append(cause.as_str());
            Err(message)
        },
    }
}

/// Saves `data`: picks the file as [`target_file_name`] does, hands the
/// file's name and the whole of `data` to `write`, once, and reports as
/// [`save_outcome`] does.
pub fn save_decoded_data<C, W>(
    data: String,
    filename: Option<String>,
    clock: C,
    write: W,
) -> (outcome: Result<String, String>) where
    C: FnOnce() -> u64,
    W: FnOnce(String, String) -> Result<(), String>,

    requires
        clock.requires(()),
        forall|name: String, content: String| write.requires((name, content)),
    ensures
        exists|name: String, written: Result<(), String>|
            {
                &&& filename matches Some(given) ==> name@ == given@
                &&& filename is None ==> exists|seconds: u64|
                    clock.ensures((), seconds) && name@ == generated_name(seconds)
                &&& write.ensures((name, data), written)
                &&& written is Ok ==> (outcome matches Ok(message) && message@ == saved_message(
                    name@,
                ))
                &&& written matches Err(cause) ==> (outcome matches Err(message) && message@
                    == failure_message(cause@))
            },
{
    let name = target_file_name(filename, clock);
    let written = write(name.clone(), data);
    save_outcome(name.as_str(), written)
}

} // verus!
