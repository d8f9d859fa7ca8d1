//! The statistics of a text.

use vstd::prelude::*;
use vstd::string::StringSliceAdditionalSpecFns;
use vstd::utf8::*;
use crate::json::{insert_member, new_object, no_members, object_members, JsonScalar};
use crate::text::{count_lines, count_words, line_count, word_count};
use crate::utf8::is_valid_utf8;

verus! {

/// Five statistics of one text.
#[derive(Clone, Copy, Debug, PartialEq, Eq, Structural)]
pub struct DataReport {
    /// The length of the text in bytes, as UTF-8.
    pub size: usize,
    /// Whether the bytes of the text are well-formed UTF-8.
    pub is_utf8: bool,
    /// The number of lines.
    pub line_count: usize,
    /// The number of words.
    pub word_count: usize,
    /// Whether the text has no characters.
    pub is_empty: bool,
}

impl DataReport {
    /// Whether this report is the one of `text`.
    pub open spec fn describes(self, text: Seq<char>) -> bool {
        &&& self.size == encode_utf8(text).len()
        &&& self.is_utf8 == valid_utf8(encode_utf8(text))
        &&& self.line_count == line_count(text)
        &&& self.word_count == word_count(text)
        &&& self.is_empty == (text.len() == 0)
    }

    /// The report as the members of a JSON object, each statistic under its
    /// own name.
    pub open spec fn json_members(self) -> Map<Seq<char>, JsonScalar> {
        no_members().insert(
            "size"@,
            JsonScalar::Unsigned(self.size as u64),
        ).insert("is_utf8"@, JsonScalar::Bool(self.is_utf8)).insert(
            "line_count"@,
            JsonScalar::Unsigned(self.line_count as u64),
        ).insert("word_count"@, JsonScalar::Unsigned(self.word_count as u64)).insert(
            "is_empty"@,
            JsonScalar::Bool(self.is_empty),
        )
    }

    /// The report as a JSON object.
    pub fn to_json(&self) -> (object: serde_json::Map<String, serde_json::Value>)
        ensures
            object_members(object) == self.json_members(),
    {
        let mut object = new_object();
        insert_member(&mut object, "size", JsonScalar::Unsigned(self.size as u64));
        insert_member(&mut object, "is_utf8", JsonScalar::Bool(self.is_utf8));
        insert_member(&mut object, "line_count", JsonScalar::Unsigned(self.line_count as u64));
        insert_member(&mut object, "word_count", JsonScalar::Unsigned(self.word_count as u64));
        insert_member(&mut object, "is_empty", JsonScalar::Bool(self.is_empty));
        object
    }
}

/// The JSON object of a report has the five statistics as its members, each
/// under a name of its own, and no other member.
pub proof fn lemma_json_members(report: DataReport)
    ensures
        report.json_members().dom() =~= set![
            "size"@,
            "is_utf8"@,
            "line_count"@,
            "word_count"@,
            "is_empty"@,
        ],
        report.json_members().dom().len() == 5,
        report.json_members()["size"@] == JsonScalar::Unsigned(report.size as u64),
        report.json_members()["is_utf8"@] == JsonScalar::Bool(report.is_utf8),
        report.json_members()["line_count"@] == JsonScalar::Unsigned(report.line_count as u64),
        report.json_members()["word_count"@] == JsonScalar::Unsigned(report.word_count as u64),
        report.json_members()["is_empty"@] == JsonScalar::Bool(report.is_empty),
{
    reveal_strlit("size");
    reveal_strlit("is_utf8");
    reveal_strlit("line_count");
    reveal_strlit("word_count");
    reveal_strlit("is_empty");
    assert("line_count"@[0] != "word_count"@[0]);
    assert("size"@.len() == 4 && "is_utf8"@.len() == 7 && "line_count"@.len() == 10
        && "word_count"@.len() == 10 && "is_empty"@.len() == 8);
}

/// A text has one report only.
pub proof fn lemma_report_is_unique(first: DataReport, second: DataReport, text: Seq<char>)
    requires
        first.describes(text),
        second.describes(text),
    ensures
        first == second,
{
}

/// In the report of any text, `is_utf8` holds, and `is_empty` holds exactly
/// where `size` is zero.
pub proof fn lemma_report_of_text(report: DataReport, text: Seq<char>)
    requires
        report.describes(text),
    ensures
        report.is_utf8,
        report.is_empty <==> report.size == 0,
        report.is_empty ==> report.line_count == 0 && report.word_count == 0,
        report.line_count <= report.size,
        report.word_count <= report.size,
{
    encode_utf8_valid_utf8(text);
    crate::utf8::lemma_encoding_empty_iff(text);
    crate::utf8::lemma_encoding_at_least_len(text);
    crate::text::lemma_line_count_at_most_len(text);
    crate::text::lemma_word_count_at_most_len(text);
}

/// Measures `data`. Every text has a report, the empty one too.
pub fn validate_data(data: &str) -> (report: DataReport)
    ensures
        report.describes(data@),
        report.size == data.spec_bytes().len(),
        report.is_utf8,
        report.is_empty <==> report.size == 0,
{
    proof {
        encode_utf8_valid_utf8(data@);
        crate::utf8::lemma_encoding_empty_iff(data@);
    }
    let bytes = data.as_bytes();
    DataReport {
        size: bytes.len(),
        is_utf8: is_valid_utf8(bytes),
        line_count: count_lines(data),
        word_count: count_words(data),
        is_empty: data.is_empty(),
    }
}

} // verus!
