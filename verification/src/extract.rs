//! The field extractor: a classified line becomes a timestamp and a message.

use crate::error::{ExtractionError, PatternError};
use crate::pattern::{compile, find_text, regex_compiles, regex_find, regex_source};
use crate::text::{
    chars_of, find_first, is_slice_of, join, lemma_join_push, lemma_slice_of_slice,
    lemma_split_at_first_rejoins, push_char, split_at_first, string_of, texts,
};
use regex::Regex;
use vstd::prelude::*;
use vstd::string::StringExecFns;

verus! {

/// Pattern of the bracketed token that a line starts with.
pub const TIMESTAMP_PATTERN: &'static str = r"^\[.*?\]";

/// Pattern of a user name in angle brackets and what follows it on the line.
pub const MESSAGE_PATTERN: &'static str = r"<.*> .*";

/// The bracketed token at the start of `line`, as the engine finds it.
pub open spec fn timestamp_token(line: Seq<char>) -> Option<Seq<char>> {
    regex_find(TIMESTAMP_PATTERN@, line)
}

/// The message of `line`, as the engine finds it.
pub open spec fn message_token(line: Seq<char>) -> Option<Seq<char>> {
    regex_find(MESSAGE_PATTERN@, line)
}

/// Whether `token` is a text between an opening and a closing square bracket.
pub open spec fn is_bracketed(token: Seq<char>) -> bool {
    token.len() >= 2 && token[0] == '[' && token[token.len() - 1] == ']'
}

/// What stands between the brackets of `token`.
pub open spec fn bracket_interior(token: Seq<char>) -> Seq<char> {
    token.subrange(1, token.len() - 1)
}

/// The parts of a timestamp token: its interior cut at the first space, so a
/// date and a time, or a time alone.
pub open spec fn timestamp_parts_of(token: Seq<char>) -> Option<Seq<Seq<char>>> {
    if is_bracketed(token) {
        Some(split_at_first(bracket_interior(token), ' '))
    } else {
        None
    }
}

/// Whether each of `parts` stands in `whole` as one run of characters.
pub open spec fn all_slices_of(parts: Seq<Seq<char>>, whole: Seq<char>) -> bool {
    forall|k: int| 0 <= k < parts.len() ==> is_slice_of(#[trigger] parts[k], whole)
}

/// The timestamp parts of `line`.
pub open spec fn timestamp_parts_in(line: Seq<char>) -> Option<Seq<Seq<char>>> {
    match timestamp_token(line) {
        Some(token) => timestamp_parts_of(token),
        None => None,
    }
}

/// What a record holds.
pub struct RecordView {
    /// The date and the time, or the time alone.
    pub timestamp_parts: Seq<Seq<char>>,
    /// The user name in angle brackets and the text after it.
    pub message: Seq<char>,
}

impl RecordView {
    /// A record has one or two timestamp parts.
    pub open spec fn well_formed(self) -> bool {
        1 <= self.timestamp_parts.len() <= 2
    }

    /// The record on one line: the timestamp parts joined by a space, a
    /// space, and the message.
    pub open spec fn display_text(self) -> Seq<char> {
        join(self.timestamp_parts, ' ').push(' ') + self.message
    }
}

/// What extraction makes of `line`: the timestamp is looked for first, then
/// the message.
pub open spec fn extraction(line: Seq<char>) -> Result<RecordView, ExtractionError> {
    match timestamp_parts_in(line) {
        None => Err(ExtractionError::MissingTimestamp),
        Some(timestamp_parts) => match message_token(line) {
            None => Err(ExtractionError::MissingMessage),
            Some(message) => Ok(RecordView { timestamp_parts, message }),
        },
    }
}

/// The display text of an extracted line is its timestamp without the
/// brackets, a space, and its message: cutting the timestamp into parts and
/// joining them again loses nothing.
pub proof fn lemma_display_text_of_extraction(line: Seq<char>)
    requires
        extraction(line) is Ok,
    ensures
        extraction(line).unwrap().well_formed(),
        extraction(line).unwrap().display_text() == bracket_interior(
            timestamp_token(line).unwrap(),
        ).push(' ') + message_token(line).unwrap(),
{
    lemma_split_at_first_rejoins(bracket_interior(timestamp_token(line).unwrap()), ' ');
}

/// The timestamp and the message of one chat line.
#[derive(Debug, PartialEq, Eq)]
pub struct ExtractedRecord {
    timestamp_parts: Vec<String>,
    message: String,
}

impl View for ExtractedRecord {
    type V = RecordView;

    closed spec fn view(&self) -> RecordView {
        RecordView { timestamp_parts: texts(self.timestamp_parts@), message: self.message@ }
    }
}

impl ExtractedRecord {
    #[verifier::type_invariant]
    spec fn one_or_two_parts(self) -> bool {
        1 <= self.timestamp_parts@.len() <= 2
    }

    /// The date and the time, or the time alone.
    pub fn timestamp_parts(&self) -> (parts: &Vec<String>)
        ensures
            texts(parts@) == self@.timestamp_parts,
            self@.well_formed(),
    {
        proof {
            use_type_invariant(self);
        }
        &self.timestamp_parts
    }

    /// The user name in angle brackets and the text after it.
    pub fn message(&self) -> (message: &String)
        ensures
            message@ == self@.message,
    {
        &self.message
    }

    /// The record on one line, as the plain-text and the image output show
    /// it.
    pub fn display_text(&self) -> (text: String)
        ensures
            text@ == self@.display_text(),
    {
        proof {
            use_type_invariant(self);
        }
        let ghost parts = texts(self.timestamp_parts@);
        let mut text = self.timestamp_parts[0].clone();
        assert(parts.take(1) == seq![parts[0]]);
        let mut i: usize = 1;
        while i < self.timestamp_parts.len()
            invariant
                parts == texts(self.timestamp_parts@),
                1 <= i <= self.timestamp_parts@.len(),
                text@ == join(parts.take(i as int), ' '),
            decreases self.timestamp_parts@.len() - i,
        {
            proof {
                lemma_join_push(parts.take(i as int), parts[i as int], ' ');
                assert(parts.take(i as int).push(parts[i as int]) == parts.take(i + 1));
            }
            push_char(&mut text, ' ');
            text.append(self.timestamp_parts[i].as_str());
            i += 1;
        }
        assert(parts.take(i as int) == parts);
        push_char(&mut text, ' ');
        text.append(self.message.as_str());
        text
    }
}

/// Takes a timestamp token apart: strips the brackets and cuts what is inside
/// at the first space. `None` where the token is not bracketed.
pub fn parse_timestamp_token(token: &str) -> (parts: Option<Vec<String>>)
    ensures
        match parts {
            Some(parts) => timestamp_parts_of(token@) == Some(texts(parts@)) && all_slices_of(
                texts(parts@),
                token@,
            ),
            None => timestamp_parts_of(token@) is None,
        },
{
    let chars = chars_of(token);
    let n = chars.len();
    if n < 2 || chars[0] != '[' || chars[n - 1] != ']' {
        return None;
    }
    let ghost interior = bracket_interior(token@);
    let cut = find_first(&chars, 1, n - 1, ' ');
    let mut parts: Vec<String> = Vec::new();
    if cut == n - 2 {
        let whole = string_of(&chars, 1, n - 1);
        parts.push(whole);
        assert(texts(parts@) == seq![interior]);
        assert(token@.subrange(1, 1 + interior.len() as int) == interior);
        assert(is_slice_of(interior, token@));
        assert(all_slices_of(texts(parts@), token@));
    } else {
        let date = string_of(&chars, 1, 1 + cut);
        let time = string_of(&chars, 2 + cut, n - 1);
        assert(date@ == interior.subrange(0, cut as int));
        assert(time@ == interior.subrange(cut + 1, interior.len() as int));
        parts.push(date);
        parts.push(time);
        assert(texts(parts@) == seq![date@, time@]);
        assert(token@.subrange(1, 1 + date@.len() as int) == date@);
        assert(token@.subrange(2 + cut, 2 + cut + time@.len() as int) == time@);
        assert(is_slice_of(date@, token@));
        assert(is_slice_of(time@, token@));
        assert(all_slices_of(texts(parts@), token@));
    }
    Some(parts)
}

/// The two compiled patterns of extraction. Built once and only read
/// afterwards.
pub struct Extractor {
    timestamp: Regex,
    message: Regex,
}

impl Extractor {
    #[verifier::type_invariant]
    spec fn compiled_from_patterns(self) -> bool {
        &&& regex_source(self.timestamp) == TIMESTAMP_PATTERN@
        &&& regex_source(self.message) == MESSAGE_PATTERN@
    }

    /// Compiles the timestamp pattern, then the message pattern.
    pub fn new() -> (built: Result<Extractor, PatternError>)
        ensures
            built is Ok <==> regex_compiles(TIMESTAMP_PATTERN@) && regex_compiles(MESSAGE_PATTERN@),
            built matches Err(e) ==> e == if regex_compiles(TIMESTAMP_PATTERN@) {
                PatternError::Message
            } else {
                PatternError::Timestamp
            },
    {
        let timestamp = match compile(TIMESTAMP_PATTERN) {
            Ok(regex) => regex,
            Err(_) => {
                return Err(PatternError::Timestamp);
            },
        };
        let message = match compile(MESSAGE_PATTERN) {
            Ok(regex) => regex,
            Err(_) => {
                return Err(PatternError::Message);
            },
        };
        Ok(Extractor { timestamp, message })
    }

    /// The timestamp parts of `line`: the date and the time, or the time
    /// alone. Fails where `line` does not start with a bracketed token.
    pub fn extract_date_time(&self, line: &str) -> (parts: Result<Vec<String>, ExtractionError>)
        ensures
            match parts {
                Ok(parts) => timestamp_parts_in(line@) == Some(texts(parts@)) && all_slices_of(
                    texts(parts@),
                    line@,
                ),
                Err(e) => timestamp_parts_in(line@) is None && e
                    == ExtractionError::MissingTimestamp,
            },
    {
        proof {
            use_type_invariant(self);
        }
        match find_text(&self.timestamp, line) {
            Some(token) => match parse_timestamp_token(token.as_str()) {
                Some(parts) => {
                    proof {
                        assert forall|k: int| 0 <= k < texts(parts@).len() implies is_slice_of(
                            #[trigger] texts(parts@)[k],
                            line@,
                        ) by {
                            lemma_slice_of_slice(texts(parts@)[k], token@, line@);
                        }
                    }
                    Ok(parts)
                },
                None => Err(ExtractionError::MissingTimestamp),
            },
            None => Err(ExtractionError::MissingTimestamp),
        }
    }

    /// The message of `line`: from the first user name in angle brackets to
    /// the end. Fails where `line` holds none.
    pub fn extract_message(&self, line: &str) -> (message: Result<String, ExtractionError>)
        ensures
            match message {
                Ok(message) => message_token(line@) == Some(message@) && is_slice_of(
                    message@,
                    line@,
                ),
                Err(e) => message_token(line@) is None && e == ExtractionError::MissingMessage,
            },
    {
        proof {
            use_type_invariant(self);
        }
        match find_text(&self.message, line) {
            Some(message) => Ok(message),
            None => Err(ExtractionError::MissingMessage),
        }
    }

    /// The record of `line`. A line without a timestamp fails as such,
    /// whatever its message; a line with a timestamp and without a message
    /// fails for the message.
    pub fn extract(&self, line: &str) -> (record: Result<ExtractedRecord, ExtractionError>)
        ensures
            match record {
                Ok(record) => {
                    &&& extraction(line@) == Ok::<RecordView, ExtractionError>(record@)
                    &&& record@.well_formed()
                    &&& all_slices_of(record@.timestamp_parts, line@)
                    &&& is_slice_of(record@.message, line@)
                },
                Err(e) => extraction(line@) == Err::<RecordView, ExtractionError>(e),
            },
    {
        let timestamp_parts = match self.extract_date_time(line) {
            Ok(parts) => parts,
            Err(e) => {
                return Err(e);
            },
        };
        let message = match self.extract_message(line) {
            Ok(message) => message,
            Err(e) => {
                return Err(e);
            },
        };
        proof {
            lemma_split_at_first_rejoins(bracket_interior(timestamp_token(line@).unwrap()), ' ');
        }
        Ok(ExtractedRecord { timestamp_parts, message })
    }
}

} // verus!
