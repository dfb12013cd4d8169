//! The scan of a whole log: its lines are classified, the chat lines are
//! extracted, and the records are gathered in the order of the lines.

use crate::classify::{accepts, first_refused, Classifier};
use crate::error::{ExtractionError, PatternError};
use crate::extract::{
    extraction, message_token, timestamp_parts_in, ExtractedRecord, Extractor, RecordView,
    MESSAGE_PATTERN, TIMESTAMP_PATTERN,
};
use crate::pattern::regex_compiles;
use crate::shape::registry;
use crate::text::{split_lines, split_on, texts};
use vstd::prelude::*;

verus! {

/// What the scan makes of one line: nothing where the line is no chat
/// message, else what extraction makes of it.
pub open spec fn line_outcome(line: Seq<char>, catch_all: bool) -> Option<
    Result<RecordView, ExtractionError>,
> {
    if accepts(line, catch_all) {
        Some(extraction(line))
    } else {
        None
    }
}

/// The outcomes of a list of lines, line by line.
pub open spec fn line_outcomes(lines: Seq<Seq<char>>, catch_all: bool) -> Seq<
    Option<Result<RecordView, ExtractionError>>,
> {
    lines.map_values(|line: Seq<char>| line_outcome(line, catch_all))
}

/// The records of a list of outcomes in their order, or the first failure
/// among them.
pub open spec fn gathered(outcomes: Seq<Option<Result<RecordView, ExtractionError>>>) -> Result<
    Seq<RecordView>,
    ExtractionError,
>
    decreases outcomes.len(),
{
    if outcomes.len() == 0 {
        Ok(Seq::empty())
    } else {
        match gathered(outcomes.drop_last()) {
            Err(e) => Err(e),
            Ok(records) => match outcomes.last() {
                None => Ok(records),
                Some(Ok(record)) => Ok(records.push(record)),
                Some(Err(e)) => Err(e),
            },
        }
    }
}

/// What the scan makes of a log: the outcomes of its lines, gathered.
pub open spec fn scan_of(content: Seq<char>, catch_all: bool) -> Result<
    Seq<RecordView>,
    ExtractionError,
> {
    gathered(line_outcomes(split_on(content, '\n'), catch_all))
}

/// The first pattern that the engine refuses when a scanner is built: the
/// shapes come first, in the order of the registry, then the timestamp and
/// the message.
pub open spec fn refused_pattern(catch_all: bool) -> Option<PatternError> {
    match first_refused(registry(catch_all)) {
        Some(shape) => Some(PatternError::Shape(shape)),
        None => if !regex_compiles(TIMESTAMP_PATTERN@) {
            Some(PatternError::Timestamp)
        } else if !regex_compiles(MESSAGE_PATTERN@) {
            Some(PatternError::Message)
        } else {
            None
        },
    }
}

/// A chat line in which both patterns of extraction find their token gives a
/// record. The classifier alone does not promise that: its shapes ask for an
/// opening angle bracket anywhere after the markers, not for a timestamp at
/// the start of the line nor for a closed user name.
pub proof fn lemma_accepted_line_extracts(line: Seq<char>, catch_all: bool)
    requires
        accepts(line, catch_all),
        timestamp_parts_in(line) is Some,
        message_token(line) is Some,
    ensures
        line_outcome(line, catch_all) == Some(
            Ok::<RecordView, ExtractionError>(
                RecordView {
                    timestamp_parts: timestamp_parts_in(line).unwrap(),
                    message: message_token(line).unwrap(),
                },
            ),
        ),
{
}

/// Gathering two lists one after the other is gathering each and putting the
/// records together, the first list's failure going before the second's. So
/// a log may be scanned in pieces, in any order of work, as long as the
/// results are put together in the order of the pieces.
pub proof fn lemma_gathered_in_pieces(
    first: Seq<Option<Result<RecordView, ExtractionError>>>,
    second: Seq<Option<Result<RecordView, ExtractionError>>>,
)
    ensures
        gathered(first + second) == match gathered(first) {
            Err(e) => Err::<Seq<RecordView>, ExtractionError>(e),
            Ok(before) => match gathered(second) {
                Err(e) => Err(e),
                Ok(after) => Ok(before + after),
            },
        },
    decreases second.len(),
{
    if second.len() == 0 {
        assert(first + second == first);
        if let Ok(before) = gathered(first) {
            assert(before + Seq::<RecordView>::empty() == before);
        }
    } else {
        let shorter = second.drop_last();
        lemma_gathered_in_pieces(first, shorter);
        assert((first + second).drop_last() == first + shorter);
        assert((first + second).last() == second.last());
        if let Ok(before) = gathered(first) {
            if let Ok(after) = gathered(shorter) {
                if let Some(Ok(record)) = second.last() {
                    assert((before + after).push(record) == before + after.push(record));
                }
            }
        }
    }
}

/// A line that is no chat message leaves no trace: wherever it stands in the
/// log, the scan gathers what it would gather without it.
pub proof fn lemma_rejected_line_leaves_no_record(
    before: Seq<Seq<char>>,
    line: Seq<char>,
    after: Seq<Seq<char>>,
    catch_all: bool,
)
    requires
        !accepts(line, catch_all),
    ensures
        gathered(line_outcomes(before + seq![line] + after, catch_all)) == gathered(
            line_outcomes(before + after, catch_all),
        ),
{
    let head = line_outcomes(before, catch_all);
    let skipped = line_outcomes(seq![line], catch_all);
    let tail = line_outcomes(after, catch_all);
    assert(line_outcomes(before + seq![line] + after, catch_all) == head + skipped + tail);
    assert(line_outcomes(before + after, catch_all) == head + tail);
    assert(skipped.len() == 1 && skipped.last() is None);
    assert(gathered(skipped.drop_last()) == Ok::<Seq<RecordView>, ExtractionError>(Seq::empty()));
    assert(gathered(skipped) == Ok::<Seq<RecordView>, ExtractionError>(Seq::empty()));
    lemma_gathered_in_pieces(head, skipped);
    lemma_gathered_in_pieces(head + skipped, tail);
    lemma_gathered_in_pieces(head, tail);
    if let Ok(records) = gathered(head) {
        assert(records + Seq::<RecordView>::empty() == records);
    }
}

/// What an outcome holds.
pub open spec fn outcome_view(outcome: Option<Result<ExtractedRecord, ExtractionError>>) -> Option<
    Result<RecordView, ExtractionError>,
> {
    match outcome {
        None => None,
        Some(Ok(record)) => Some(Ok(record@)),
        Some(Err(e)) => Some(Err(e)),
    }
}

/// What the outcomes of a list hold.
pub open spec fn outcome_views(
    outcomes: Seq<Option<Result<ExtractedRecord, ExtractionError>>>,
) -> Seq<Option<Result<RecordView, ExtractionError>>> {
    outcomes.map_values(|o: Option<Result<ExtractedRecord, ExtractionError>>| outcome_view(o))
}

/// What the records of a list hold.
pub open spec fn record_views(records: Seq<ExtractedRecord>) -> Seq<RecordView> {
    records.map_values(|r: ExtractedRecord| r@)
}

/// The records of `outcomes` in their order. The first failure among them
/// ends the run: no record is handed out then.
pub fn gather(outcomes: Vec<Option<Result<ExtractedRecord, ExtractionError>>>) -> (records: Result<
    Vec<ExtractedRecord>,
    ExtractionError,
>)
    ensures
        match records {
            Ok(records) => gathered(outcome_views(outcomes@)) == Ok::<
                Seq<RecordView>,
                ExtractionError,
            >(record_views(records@)),
            Err(e) => gathered(outcome_views(outcomes@)) == Err::<Seq<RecordView>, ExtractionError>(
                e,
            ),
        },
{
    let ghost all = outcome_views(outcomes@);
    let mut records: Vec<ExtractedRecord> = Vec::new();
    assert(record_views(records@) == Seq::<RecordView>::empty());
    assert(all.take(0) == Seq::<Option<Result<RecordView, ExtractionError>>>::empty());
    for outcome in it: outcomes
        invariant
            all == outcome_views(it.seq()),
            gathered(all.take(it.index() as int)) == Ok::<Seq<RecordView>, ExtractionError>(
                record_views(records@),
            ),
    {
        let ghost at = it.index() as int;
        proof {
            assert(all.take(at + 1).drop_last() == all.take(at));
            assert(all.take(at + 1).last() == outcome_view(outcome));
        }
        match outcome {
            None => {},
            Some(Ok(record)) => {
                let ghost before = records@;
                records.push(record);
                assert(record_views(records@) == record_views(before).push(record@));
            },
            Some(Err(e)) => {
                proof {
                    lemma_gathered_in_pieces(all.take(at + 1), all.skip(at + 1));
                    assert(all.take(at + 1) + all.skip(at + 1) == all);
                }
                return Err(e);
            },
        }
    }
    assert(all.take(all.len() as int) == all);
    Ok(records)
}

/// A classifier and an extractor that work through a log together.
pub struct Scanner {
    classifier: Classifier,
    extractor: Extractor,
}

impl Scanner {
    /// Whether the permissive shape is registered.
    pub closed spec fn catch_all_enabled(self) -> bool {
        self.classifier.catch_all_enabled()
    }

    /// Compiles the patterns of the classifier, then those of the extractor.
    fn build(catch_all: bool) -> (built: Result<Scanner, PatternError>)
        ensures
            match built {
                Ok(scanner) => scanner.catch_all_enabled() == catch_all && refused_pattern(
                    catch_all,
                ) is None,
                Err(e) => refused_pattern(catch_all) == Some(e),
            },
    {
        let made = if catch_all {
            Classifier::with_catch_all()
        } else {
            Classifier::new()
        };
        let classifier = match made {
            Ok(classifier) => classifier,
            Err(e) => {
                return Err(e);
            },
        };
        let extractor = match Extractor::new() {
            Ok(extractor) => extractor,
            Err(e) => {
                return Err(e);
            },
        };
        Ok(Scanner { classifier, extractor })
    }

    /// A scanner for the server and client shapes. Fails with the first
    /// pattern that the engine refuses.
    pub fn new() -> (built: Result<Scanner, PatternError>)
        ensures
            match built {
                Ok(scanner) => !scanner.catch_all_enabled() && refused_pattern(false) is None,
                Err(e) => refused_pattern(false) == Some(e),
            },
    {
        Scanner::build(false)
    }

    /// A scanner that also takes any line with the chat marker.
    pub fn with_catch_all() -> (built: Result<Scanner, PatternError>)
        ensures
            match built {
                Ok(scanner) => scanner.catch_all_enabled() && refused_pattern(true) is None,
                Err(e) => refused_pattern(true) == Some(e),
            },
    {
        Scanner::build(true)
    }

    /// Whether the permissive shape is registered.
    pub fn has_catch_all(&self) -> (enabled: bool)
        ensures
            enabled == self.catch_all_enabled(),
    {
        self.classifier.has_catch_all()
    }

    /// Classifies `line` and, where it is a chat message, extracts it.
    pub fn scan_line(&self, line: &str) -> (outcome: Option<
        Result<ExtractedRecord, ExtractionError>,
    >)
        ensures
            outcome_view(outcome) == line_outcome(line@, self.catch_all_enabled()),
    {
        if self.classifier.is_possible_chat_message(line) {
            Some(self.extractor.extract(line))
        } else {
            None
        }
    }

    /// The records of the chat lines of `content`, in the order of the
    /// lines. The first chat line that cannot be extracted ends the scan with
    /// its error.
    pub fn scan(&self, content: &str) -> (records: Result<Vec<ExtractedRecord>, ExtractionError>)
        ensures
            match records {
                Ok(records) => scan_of(content@, self.catch_all_enabled()) == Ok::<
                    Seq<RecordView>,
                    ExtractionError,
                >(record_views(records@)),
                Err(e) => scan_of(content@, self.catch_all_enabled()) == Err::<
                    Seq<RecordView>,
                    ExtractionError,
                >(e),
            },
    {
        let lines = split_lines(content);
        let ghost expected = line_outcomes(texts(lines@), self.catch_all_enabled());
        let mut outcomes: Vec<Option<Result<ExtractedRecord, ExtractionError>>> = Vec::new();
        let mut i: usize = 0;
        while i < lines.len()
            invariant
                expected == line_outcomes(texts(lines@), self.catch_all_enabled()),
                0 <= i <= lines@.len(),
                outcome_views(outcomes@) == expected.take(i as int),
            decreases lines@.len() - i,
        {
            let outcome = self.scan_line(lines[i].as_str());
            let ghost before = outcomes@;
            proof {
                assert(expected.take(i + 1) == expected.take(i as int).push(expected[i as int]));
                assert(expected[i as int] == line_outcome(lines@[i as int]@, self.catch_all_enabled()));
            }
            outcomes.push(outcome);
            assert(outcome_views(outcomes@) == outcome_views(before).push(outcome_view(outcome)));
            i += 1;
        }
        assert(expected.take(i as int) == expected);
        gather(outcomes)
    }
}

} // verus!
